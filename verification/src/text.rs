//! Text building blocks: the decimal form of integers, joining fragments
//! with a separator, and splitting a text at a separator.

use vstd::prelude::*;

verus! {

/// The character of one decimal digit.
pub open spec fn digit_char(d: nat) -> char {
    if d == 0 {
        '0'
    } else if d == 1 {
        '1'
    } else if d == 2 {
        '2'
    } else if d == 3 {
        '3'
    } else if d == 4 {
        '4'
    } else if d == 5 {
        '5'
    } else if d == 6 {
        '6'
    } else if d == 7 {
        '7'
    } else if d == 8 {
        '8'
    } else {
        '9'
    }
}

/// The decimal text of a natural number, without sign or padding.
pub open spec fn nat_text(n: nat) -> Seq<char>
    decreases n,
{
    if n < 10 {
        seq![digit_char(n)]
    } else {
        nat_text(n / 10).push(digit_char(n % 10))
    }
}

/// The decimal text of an integer: a minus sign before the magnitude when
/// the value is negative.
pub open spec fn int_text(i: int) -> Seq<char> {
    if i >= 0 {
        nat_text(i as nat)
    } else {
        seq!['-'] + nat_text((-i) as nat)
    }
}

/// The text of a boolean.
pub open spec fn bool_text(b: bool) -> Seq<char> {
    if b {
        "true"@
    } else {
        "false"@
    }
}

/// The fragments joined with one copy of `sep` between neighbours: no
/// leading and no trailing separator, and the empty text for no fragments.
pub open spec fn join_with(parts: Seq<Seq<char>>, sep: Seq<char>) -> Seq<char>
    decreases parts.len(),
{
    if parts.len() == 0 {
        Seq::empty()
    } else if parts.len() == 1 {
        parts[0]
    } else {
        join_with(parts.drop_last(), sep) + sep + parts.last()
    }
}

/// Joining one more fragment appends it after a separator, unless it is
/// the first.
pub proof fn lemma_join_with_push(parts: Seq<Seq<char>>, sep: Seq<char>, p: Seq<char>)
    ensures
        parts.len() == 0 ==> join_with(parts.push(p), sep) == p,
        parts.len() > 0 ==> join_with(parts.push(p), sep) == join_with(parts, sep) + sep + p,
{
    let whole = parts.push(p);
    assert(whole.drop_last() =~= parts);
    assert(whole.last() == p);
    if parts.len() == 0 {
        assert(join_with(whole, sep) == whole[0]);
    }
}

/// Joining splits off the first fragment as well as the last.
pub proof fn lemma_join_with_first(parts: Seq<Seq<char>>, sep: Seq<char>)
    requires
        parts.len() >= 2,
    ensures
        join_with(parts, sep) == parts[0] + sep + join_with(parts.drop_first(), sep),
    decreases parts.len(),
{
    if parts.len() == 2 {
        assert(parts.drop_last()[0] == parts[0]);
        assert(join_with(parts.drop_last(), sep) == parts[0]);
        assert(join_with(parts.drop_first(), sep) == parts.drop_first()[0]);
        assert(parts.drop_first()[0] == parts[1]);
    } else {
        let head = parts.drop_last();
        lemma_join_with_first(head, sep);
        assert(head.drop_first() =~= parts.drop_first().drop_last());
        assert(parts.drop_first().last() == parts.last());
        assert((parts[0] + sep + join_with(parts.drop_first().drop_last(), sep)) + sep
            + parts.last() =~= parts[0] + sep + (join_with(parts.drop_first().drop_last(), sep)
            + sep + parts.last()));
        assert(join_with(parts.drop_first(), sep) == join_with(parts.drop_first().drop_last(),
            sep) + sep + parts.drop_first().last());
    }
}

/// No character of `s` is `sep`.
pub open spec fn sep_free(s: Seq<char>, sep: char) -> bool {
    forall|i: int| 0 <= i < s.len() ==> s[i] != sep
}

/// The index of the first occurrence of `sep` in `s`, or `s.len()` when
/// there is none.
pub open spec fn sep_index(s: Seq<char>, sep: char) -> int
    decreases s.len(),
{
    if s.len() == 0 {
        0
    } else if s[0] == sep {
        0
    } else {
        1 + sep_index(s.drop_first(), sep)
    }
}

/// `sep_index` points at the first separator: nothing before it is one,
/// and it is one itself unless the whole text is separator-free.
pub proof fn lemma_sep_index(s: Seq<char>, sep: char)
    ensures
        0 <= sep_index(s, sep) <= s.len(),
        sep_index(s, sep) < s.len() ==> s[sep_index(s, sep)] == sep,
        forall|j: int| 0 <= j < sep_index(s, sep) ==> s[j] != sep,
    decreases s.len(),
{
    if s.len() == 0 || s[0] == sep {
    } else {
        lemma_sep_index(s.drop_first(), sep);
        assert forall|j: int| 0 <= j < sep_index(s, sep) implies s[j] != sep by {
            if j > 0 {
                assert(s.drop_first()[j - 1] == s[j]);
            }
        }
    }
}

/// The first separator of a text that starts with a separator-free prefix
/// `a`, then a separator, stands right after `a`.
pub proof fn lemma_sep_index_of_concat(a: Seq<char>, b: Seq<char>, sep: char)
    requires
        sep_free(a, sep),
    ensures
        sep_index(a + seq![sep] + b, sep) == a.len(),
{
    let s = a + seq![sep] + b;
    lemma_sep_index(s, sep);
    let i = sep_index(s, sep);
    assert(s[a.len() as int] == sep);
    if i < a.len() {
        assert(s[i] == a[i]);
        assert(false);
    }
    if i > a.len() {
        assert(s[a.len() as int] != sep);
        assert(false);
    }
}

/// The pieces of `s` between its separators, in order: a text holding
/// `n` separators has exactly `n + 1` pieces, so a trailing separator
/// ends with an empty piece and the empty text is one empty piece.
pub open spec fn split_at(s: Seq<char>, sep: char) -> Seq<Seq<char>>
    decreases s.len(),
    via split_at_decreases
{
    let i = sep_index(s, sep);
    if i == s.len() {
        seq![s]
    } else {
        seq![s.take(i)] + split_at(s.skip(i + 1), sep)
    }
}

#[via_fn]
proof fn split_at_decreases(s: Seq<char>, sep: char) {
    lemma_sep_index(s, sep);
}

/// Splitting undoes joining: a join of at least one separator-free
/// fragment splits back into exactly those fragments, empty ones
/// included.
pub proof fn lemma_split_join(parts: Seq<Seq<char>>, sep: char)
    requires
        parts.len() > 0,
        forall|i: int| 0 <= i < parts.len() ==> sep_free(#[trigger] parts[i], sep),
    ensures
        split_at(join_with(parts, seq![sep]), sep) == parts,
    decreases parts.len(),
{
    let s = join_with(parts, seq![sep]);
    if parts.len() == 1 {
        lemma_sep_index(s, sep);
        assert(s == parts[0]);
        assert(sep_index(s, sep) == s.len()) by {
            if sep_index(s, sep) < s.len() {
                assert(s[sep_index(s, sep)] != sep);
            }
        }
        assert(split_at(s, sep) =~= parts);
    } else {
        let rest = parts.drop_first();
        lemma_join_with_first(parts, seq![sep]);
        let tail = join_with(rest, seq![sep]);
        assert(s == parts[0] + seq![sep] + tail);
        lemma_sep_index_of_concat(parts[0], tail, sep);
        let i = sep_index(s, sep);
        assert(i == parts[0].len());
        assert(s.take(i) =~= parts[0]);
        assert(s.skip(i + 1) =~= tail);
        lemma_split_join(rest, sep);
        assert(split_at(s, sep) == seq![parts[0]] + rest);
        assert(seq![parts[0]] + rest =~= parts);
    }
}

/// A join of fragments free of some character, with a separator free of
/// it too, stays free of it.
pub proof fn lemma_join_with_free(parts: Seq<Seq<char>>, sep: Seq<char>, c: char)
    requires
        forall|i: int| 0 <= i < parts.len() ==> sep_free(#[trigger] parts[i], c),
        sep_free(sep, c),
    ensures
        sep_free(join_with(parts, sep), c),
    decreases parts.len(),
{
    if parts.len() <= 1 {
    } else {
        lemma_join_with_free(parts.drop_last(), sep, c);
    }
}

/// One decimal digit as a string slice.
fn digit_str(d: u64) -> (r: &'static str)
    requires
        d < 10,
    ensures
        r@ == seq![digit_char(d as nat)],
{
    let r: &'static str = if d == 0 {
        "0"
    } else if d == 1 {
        "1"
    } else if d == 2 {
        "2"
    } else if d == 3 {
        "3"
    } else if d == 4 {
        "4"
    } else if d == 5 {
        "5"
    } else if d == 6 {
        "6"
    } else if d == 7 {
        "7"
    } else if d == 8 {
        "8"
    } else {
        "9"
    };
    proof {
        reveal_strlit("0");
        reveal_strlit("1");
        reveal_strlit("2");
        reveal_strlit("3");
        reveal_strlit("4");
        reveal_strlit("5");
        reveal_strlit("6");
        reveal_strlit("7");
        reveal_strlit("8");
        reveal_strlit("9");
        assert(r@ =~= seq![digit_char(d as nat)]);
    }
    r
}

/// Appends the decimal digits of `n` to `out`.
fn push_u64_digits(out: &mut String, n: u64)
    ensures
        final(out)@ == old(out)@ + nat_text(n as nat),
    decreases n,
{
    if n >= 10 {
        push_u64_digits(out, n / 10);
    }
    out.append(digit_str(n % 10));
    proof {
        if n < 10 {
            assert(old(out)@ + nat_text(n as nat) =~= old(out)@ + seq![digit_char(n as nat)]);
        } else {
            assert(old(out)@ + nat_text(n as nat) =~= (old(out)@ + nat_text(n as nat / 10))
                + seq![digit_char(n as nat % 10)]);
        }
    }
}

/// The decimal text of an unsigned integer.
pub fn u64_to_string(n: u64) -> (r: String)
    ensures
        r@ == nat_text(n as nat),
{
    let mut out = String::new();
    push_u64_digits(&mut out, n);
    proof {
        assert(out@ =~= nat_text(n as nat));
    }
    out
}

/// The decimal text of a signed integer.
pub fn i64_to_string(i: i64) -> (r: String)
    ensures
        r@ == int_text(i as int),
{
    if i >= 0 {
        let r = u64_to_string(i as u64);
        r
    } else {
        let wide: i128 = i as i128;
        let mag: u64 = (-wide) as u64;
        let mut out = String::from_str("-");
        push_u64_digits(&mut out, mag);
        proof {
            reveal_strlit("-");
            assert(out@ =~= int_text(i as int));
        }
        out
    }
}

/// The text of a boolean: `true` or `false`.
pub fn bool_to_string(b: bool) -> (r: String)
    ensures
        r@ == bool_text(b),
{
    if b {
        String::from_str("true")
    } else {
        String::from_str("false")
    }
}

/// Relies on `char::to_string` of std: the returned string holds exactly
/// the one given character.
#[verifier::external_body]
pub fn char_to_string(c: char) -> (r: String)
    ensures
        r@ == seq![c],
{
    c.to_string()
}

} // verus!
