//! Character-level helpers: prefix tests, digit search, ASCII
//! case-insensitive comparison, newline counting, and newline joining.

use vstd::prelude::*;
use vstd::string::StrSliceExecFns;
use vstd::string::StringExecFns;

verus! {

/// `p` is a prefix of `s`.
pub open spec fn has_prefix(s: Seq<char>, p: Seq<char>) -> bool {
    p.len() <= s.len() && s.subrange(0, p.len() as int) == p
}

/// `c` is one of the decimal digits `0` through `9`.
pub open spec fn is_ascii_digit(c: char) -> bool {
    48 <= c as u32 <= 57
}

/// Some character of `s` is a decimal digit.
pub open spec fn has_digit(s: Seq<char>) -> bool {
    exists|i: int| 0 <= i < s.len() && is_ascii_digit(#[trigger] s[i])
}

/// The code point of `c` with an ASCII capital letter folded to lower case.
pub open spec fn lower_code(c: char) -> int {
    if 65 <= c as u32 <= 90 {
        c as u32 + 32
    } else {
        c as u32 as int
    }
}

/// The two texts are equal once ASCII capital letters are folded to lower case.
pub open spec fn eq_ignore_case(a: Seq<char>, b: Seq<char>) -> bool {
    a.len() == b.len() && forall|i: int|
        0 <= i < a.len() ==> lower_code(#[trigger] a[i]) == lower_code(b[i])
}

/// How many times `c` occurs in `s`.
pub open spec fn count_char(s: Seq<char>, c: char) -> int
    decreases s.len(),
{
    if s.len() == 0 {
        0
    } else {
        count_char(s.drop_last(), c) + if s.last() == c {
            1int
        } else {
            0int
        }
    }
}

/// The texts joined in order with a single newline between neighbours.
pub open spec fn spec_join(msgs: Seq<Seq<char>>) -> Seq<char>
    decreases msgs.len(),
{
    if msgs.len() == 0 {
        Seq::empty()
    } else if msgs.len() == 1 {
        msgs[0]
    } else {
        spec_join(msgs.drop_last()) + "\n"@ + msgs.last()
    }
}

/// The views of a sequence of owned strings.
pub open spec fn views_of(msgs: Seq<String>) -> Seq<Seq<char>> {
    msgs.map_values(|m: String| m@)
}

pub proof fn lemma_count_char_add(a: Seq<char>, b: Seq<char>, c: char)
    ensures
        count_char(a + b, c) == count_char(a, c) + count_char(b, c),
    decreases b.len(),
{
    if b.len() == 0 {
        assert(a + b =~= a);
    } else {
        assert((a + b).drop_last() =~= a + b.drop_last());
        assert((a + b).last() == b.last());
        lemma_count_char_add(a, b.drop_last(), c);
    }
}

pub proof fn lemma_count_char_zero(s: Seq<char>, c: char)
    requires
        forall|i: int| 0 <= i < s.len() ==> #[trigger] s[i] != c,
    ensures
        count_char(s, c) == 0,
    decreases s.len(),
{
    if s.len() > 0 {
        lemma_count_char_zero(s.drop_last(), c);
    }
}

/// Joining `n` newline-free texts yields a text with exactly `n - 1` newlines,
/// hence exactly `n` lines.
pub proof fn lemma_join_line_count(msgs: Seq<Seq<char>>)
    requires
        msgs.len() > 0,
        forall|i: int| 0 <= i < msgs.len() ==> count_char(#[trigger] msgs[i], '\n') == 0,
    ensures
        count_char(spec_join(msgs), '\n') == msgs.len() - 1,
    decreases msgs.len(),
{
    reveal_strlit("\n");
    if msgs.len() == 1 {
        assert(count_char(msgs[0], '\n') == 0);
    } else {
        let dl = msgs.drop_last();
        assert(forall|i: int| 0 <= i < dl.len() ==> count_char(#[trigger] dl[i], '\n') == 0);
        lemma_join_line_count(dl);
        lemma_count_char_add(spec_join(dl), "\n"@, '\n');
        lemma_count_char_add(spec_join(dl) + "\n"@, msgs.last(), '\n');
        assert("\n"@.len() == 1);
        assert("\n"@.last() == '\n');
        assert("\n"@.drop_last() =~= Seq::<char>::empty());
        assert(count_char(Seq::<char>::empty(), '\n') == 0);
        assert(count_char("\n"@, '\n') == 1);
        assert(count_char(msgs.last(), '\n') == 0);
    }
}

/// Whether `p` spells a prefix of `s`, counted in characters.
pub fn str_has_prefix(s: &str, p: &str) -> (r: bool)
    ensures
        r == has_prefix(s@, p@),
{
    let sl = s.unicode_len();
    let pl = p.unicode_len();
    if pl > sl {
        return false;
    }
    let mut i: usize = 0;
    while i < pl
        invariant
            0 <= i <= pl,
            pl == p@.len(),
            sl == s@.len(),
            pl <= sl,
            forall|j: int| 0 <= j < i ==> s@[j] == p@[j],
        decreases pl - i,
    {
        if s.get_char(i) != p.get_char(i) {
            proof {
                assert(s@.subrange(0, p@.len() as int)[i as int] == s@[i as int]);
            }
            return false;
        }
        i += 1;
    }
    proof {
        assert(s@.subrange(0, p@.len() as int) =~= p@);
    }
    true
}

/// Whether some character of `s` is a decimal digit.
pub fn contains_digit(s: &str) -> (r: bool)
    ensures
        r == has_digit(s@),
{
    let n = s.unicode_len();
    let mut i: usize = 0;
    while i < n
        invariant
            0 <= i <= n,
            n == s@.len(),
            forall|j: int| 0 <= j < i ==> !is_ascii_digit(#[trigger] s@[j]),
        decreases n - i,
    {
        let c = s.get_char(i);
        let code = c as u32;
        if 48 <= code && code <= 57 {
            proof {
                assert(is_ascii_digit(s@[i as int]));
            }
            return true;
        }
        i += 1;
    }
    false
}

fn lower_char_code(c: char) -> (r: u32)
    ensures
        r == lower_code(c),
{
    let code = c as u32;
    if 65 <= code && code <= 90 {
        code + 32
    } else {
        code
    }
}

/// Whether the two texts are equal up to ASCII case.
pub fn str_eq_ignore_case(a: &str, b: &str) -> (r: bool)
    ensures
        r == eq_ignore_case(a@, b@),
{
    let al = a.unicode_len();
    let bl = b.unicode_len();
    if al != bl {
        return false;
    }
    let mut i: usize = 0;
    while i < al
        invariant
            0 <= i <= al,
            al == a@.len(),
            bl == b@.len(),
            al == bl,
            forall|j: int| 0 <= j < i ==> lower_code(#[trigger] a@[j]) == lower_code(b@[j]),
        decreases al - i,
    {
        let ca = lower_char_code(a.get_char(i));
        let cb = lower_char_code(b.get_char(i));
        if ca != cb {
            return false;
        }
        i += 1;
    }
    true
}

/// The messages joined in order, one per line.
pub fn join_lines(msgs: &Vec<String>) -> (r: String)
    requires
        msgs@.len() > 0,
    ensures
        r@ == spec_join(views_of(msgs@)),
{
    let mut r: String = msgs[0].clone();
    let mut i: usize = 1;
    proof {
        assert(views_of(msgs@).take(1)[0] == msgs@[0]@);
    }
    while i < msgs.len()
        invariant
            1 <= i <= msgs@.len(),
            r@ == spec_join(views_of(msgs@).take(i as int)),
        decreases msgs@.len() - i,
    {
        r.append("\n");
        r.append(msgs[i].as_str());
        proof {
            let vs = views_of(msgs@);
            assert(vs.take(i as int + 1).drop_last() =~= vs.take(i as int));
            assert(vs.take(i as int + 1).last() == vs[i as int]);
        }
        i += 1;
    }
    proof {
        assert(views_of(msgs@).take(msgs@.len() as int) =~= views_of(msgs@));
    }
    r
}

} // verus!
