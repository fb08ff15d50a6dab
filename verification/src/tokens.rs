//! Splitting a command line into whitespace-delimited tokens.
//!
//! A token is a maximal run of non-whitespace characters; runs of whitespace
//! separate tokens and leading or trailing whitespace yields none.
//! Whitespace here is the ASCII kind: space, tab, line feed, form feed and
//! carriage return.

use vstd::prelude::*;

verus! {

/// An ASCII whitespace character.
pub open spec fn is_space(c: char) -> bool {
    c == ' ' || c == '\t' || c == '\n' || c == '\u{c}' || c == '\r'
}

/// Runtime check for [`is_space`].
pub fn is_space_char(c: char) -> (r: bool)
    ensures
        r == is_space(c),
{
    c == ' ' || c == '\t' || c == '\n' || c == '\u{c}' || c == '\r'
}

/// The whitespace-delimited tokens of `s`, in order.
///
/// Defined by induction on the last character: a whitespace character ends
/// any token, a non-whitespace character extends the token it follows or
/// opens a new one.
pub open spec fn tokens_of(s: Seq<char>) -> Seq<Seq<char>>
    decreases s.len(),
{
    if s.len() == 0 {
        Seq::empty()
    } else {
        let rest = tokens_of(s.drop_last());
        let c = s.last();
        if is_space(c) {
            rest
        } else if s.len() >= 2 && !is_space(s[s.len() - 2]) {
            rest.update(rest.len() - 1, rest.last().push(c))
        } else {
            rest.push(seq![c])
        }
    }
}

/// A line whose last character is not whitespace ends in a nonempty token.
pub proof fn lemma_tokens_of_nonempty(s: Seq<char>)
    requires
        s.len() > 0,
        !is_space(s.last()),
    ensures
        tokens_of(s).len() > 0,
        tokens_of(s).last().len() > 0,
    decreases s.len(),
{
    if s.len() >= 2 && !is_space(s[s.len() - 2]) {
        lemma_tokens_of_nonempty(s.drop_last());
    }
}

/// The character sequences held by a vector of character vectors.
pub open spec fn views_of(toks: Seq<Vec<char>>) -> Seq<Seq<char>> {
    toks.map_values(|t: Vec<char>| t@)
}

/// Splits `s` into its whitespace-delimited tokens.
#[verifier::loop_isolation(false)]
pub fn split_tokens(s: &str) -> (toks: Vec<Vec<char>>)
    ensures
        views_of(toks@) == tokens_of(s@),
{
    let n = s.unicode_len();
    let mut toks: Vec<Vec<char>> = Vec::new();
    let mut prev_space: bool = true;
    let mut i: usize = 0;
    proof {
        assert(views_of(toks@) =~= tokens_of(s@.subrange(0, 0)));
    }
    while i < n
        invariant
            i <= n,
            views_of(toks@) == tokens_of(s@.subrange(0, i as int)),
            prev_space == (i == 0 || is_space(s@[i - 1])),
        decreases n - i,
    {
        let c = s.get_char(i);
        let ghost prefix = s@.subrange(0, i as int);
        let ghost prefix1 = s@.subrange(0, i + 1);
        proof {
            assert(prefix1.drop_last() =~= prefix);
            assert(prefix1.last() == s@[i as int]);
        }
        if is_space_char(c) {
            proof {
                assert(tokens_of(prefix1) == tokens_of(prefix));
            }
        } else if prev_space {
            let mut t: Vec<char> = Vec::new();
            t.push(c);
            let ghost old_toks = toks@;
            toks.push(t);
            proof {
                assert(t@ =~= seq![c]);
                assert(views_of(toks@) =~= views_of(old_toks).push(t@));
                assert(tokens_of(prefix1) == tokens_of(prefix).push(seq![c]));
            }
        } else {
            proof {
                assert(prefix.last() == s@[i - 1]);
                lemma_tokens_of_nonempty(prefix);
                assert(toks@.len() > 0);
            }
            let ghost old_toks = toks@;
            let mut last = toks.pop().unwrap();
            last.push(c);
            toks.push(last);
            proof {
                let rest = tokens_of(prefix);
                assert(old_toks[old_toks.len() - 1]@ == rest.last());
                assert(views_of(toks@) =~= rest.update(rest.len() - 1, rest.last().push(c)));
                assert(prefix1.len() >= 2 && !is_space(prefix1[prefix1.len() - 2]));
            }
        }
        i += 1;
        prev_space = is_space_char(c);
    }
    proof {
        assert(s@.subrange(0, n as int) =~= s@);
    }
    toks
}

} // verus!
