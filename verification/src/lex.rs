//! Splitting a mapping line into fields.
//!
//! Fields are separated by one or more space characters; repeated spaces —
//! the variable padding before the pathname field — produce no empty
//! fields. [`tokens`] is the mathematical model: the maximal runs of
//! non-space characters of a line, in order. [`tokenize`] computes it.

use vstd::prelude::*;

verus! {

/// The index of the first occurrence of `c` in `s`, or `s.len()` when `c`
/// does not occur.
pub open spec fn first_index_of(s: Seq<char>, c: char) -> int
    decreases s.len(),
{
    if s.len() == 0 {
        0
    } else if s[0] == c {
        0
    } else {
        1 + first_index_of(s.drop_first(), c)
    }
}

pub proof fn lemma_first_index_bounds(s: Seq<char>, c: char)
    ensures
        0 <= first_index_of(s, c) <= s.len(),
        first_index_of(s, c) < s.len() ==> s[first_index_of(s, c)] == c,
        forall|m: int| 0 <= m < first_index_of(s, c) ==> s[m] != c,
    decreases s.len(),
{
    if s.len() == 0 {
    } else if s[0] == c {
    } else {
        lemma_first_index_bounds(s.drop_first(), c);
        assert forall|m: int| 0 <= m < first_index_of(s, c) implies s[m] != c by {
            if m >= 1 {
                assert(s.drop_first()[m - 1] == s[m]);
            }
        }
    }
}

/// `first_index_of` is pinned down by its characterization: nothing before
/// `k` is `c`, and at `k` stands `c` or the end of the string.
pub proof fn lemma_first_index_is(s: Seq<char>, c: char, k: int)
    requires
        0 <= k <= s.len(),
        forall|m: int| 0 <= m < k ==> s[m] != c,
        k == s.len() || s[k] == c,
    ensures
        first_index_of(s, c) == k,
    decreases s.len(),
{
    if s.len() == 0 {
    } else if s[0] == c {
        assert(k == 0);
    } else {
        assert(k >= 1);
        assert(forall|m: int| 0 <= m < k - 1 ==> s.drop_first()[m] == s[m + 1] && s.drop_first()[m]
            != c);
        lemma_first_index_is(s.drop_first(), c, k - 1);
    }
}

/// The fields of a line: the maximal runs of non-space characters, in order.
pub open spec fn tokens(s: Seq<char>) -> Seq<Seq<char>>
    decreases s.len(),
    via tokens_decreases
{
    if s.len() == 0 {
        Seq::empty()
    } else if s[0] == ' ' {
        tokens(s.drop_first())
    } else {
        let k = first_index_of(s, ' ');
        seq![s.subrange(0, k)] + tokens(s.subrange(k, s.len() as int))
    }
}

#[via_fn]
proof fn tokens_decreases(s: Seq<char>) {
    if s.len() > 0 && s[0] != ' ' {
        lemma_first_index_bounds(s, ' ');
    }
}

/// A leading space carries no field.
pub proof fn lemma_tokens_skip_space(s: Seq<char>)
    requires
        s.len() > 0,
        s[0] == ' ',
    ensures
        tokens(s) == tokens(s.drop_first()),
{
}

/// A run of non-space characters up to `k` is the first field, and the rest
/// of the fields follow from `k` on.
pub proof fn lemma_tokens_take_token(s: Seq<char>, k: int)
    requires
        0 < k <= s.len(),
        forall|m: int| 0 <= m < k ==> s[m] != ' ',
        k == s.len() || s[k] == ' ',
    ensures
        tokens(s) == seq![s.subrange(0, k)] + tokens(s.subrange(k, s.len() as int)),
{
    assert(s[0] != ' ');
    lemma_first_index_is(s, ' ', k);
}

/// Duplicating a space character changes no field: the fields of a line are
/// unmoved by the width of the runs of spaces that separate them.
pub proof fn lemma_space_insertion(s: Seq<char>, i: int)
    requires
        0 <= i < s.len(),
        s[i] == ' ',
    ensures
        tokens(s.insert(i, ' ')) == tokens(s),
    decreases s.len(),
{
    let t = s.insert(i, ' ');
    assert(t.len() == s.len() + 1);
    if i == 0 {
        assert(t[0] == ' ');
        assert(t.drop_first() =~= s);
    } else if s[0] == ' ' {
        assert(t[0] == ' ');
        assert(t.drop_first() =~= s.drop_first().insert(i - 1, ' '));
        assert(s.drop_first()[i - 1] == s[i]);
        lemma_space_insertion(s.drop_first(), i - 1);
    } else {
        let k = first_index_of(s, ' ');
        lemma_first_index_bounds(s, ' ');
        assert(k <= i);
        assert(forall|m: int| 0 <= m < k ==> t[m] == s[m] && t[m] != ' ');
        assert(t[k] == ' ');
        lemma_first_index_is(t, ' ', k);
        assert(tokens(s) == seq![s.subrange(0, k)] + tokens(s.subrange(k, s.len() as int)));
        assert(tokens(t) == seq![t.subrange(0, k)] + tokens(t.subrange(k, t.len() as int)));
        assert(t.subrange(0, k) =~= s.subrange(0, k));
        let stail = s.subrange(k, s.len() as int);
        assert(t.subrange(k, t.len() as int) =~= stail.insert(i - k, ' '));
        assert(stail[i - k] == s[i]);
        lemma_space_insertion(stail, i - k);
    }
}

/// Splits a line into its fields: exactly [`tokens`] of the view.
pub fn tokenize(s: &str) -> (toks: Vec<String>)
    ensures
        toks@.map_values(|t: String| t@) == tokens(s@),
{
    let n = s.unicode_len();
    let mut toks: Vec<String> = Vec::new();
    let mut i: usize = 0;
    proof {
        assert(s@.subrange(0, n as int) =~= s@);
        assert(toks@.map_values(|t: String| t@) =~= Seq::<Seq<char>>::empty());
        assert(Seq::<Seq<char>>::empty() + tokens(s@) =~= tokens(s@));
    }
    while i < n
        invariant
            i <= n,
            n == s@.len(),
            toks@.map_values(|t: String| t@) + tokens(s@.subrange(i as int, n as int)) == tokens(
                s@,
            ),
        decreases n - i,
    {
        let ghost rest = s@.subrange(i as int, n as int);
        let c = s.get_char(i);
        if c == ' ' {
            proof {
                lemma_tokens_skip_space(rest);
                assert(rest.drop_first() =~= s@.subrange(i as int + 1, n as int));
            }
            i += 1;
        } else {
            let mut j = i + 1;
            while j < n && s.get_char(j) != ' '
                invariant
                    i < j <= n,
                    n == s@.len(),
                    forall|m: int| i <= m < j ==> s@[m] != ' ',
                decreases n - j,
            {
                j += 1;
            }
            let tok = s.substring_char(i, j).to_owned();
            proof {
                let k = j - i;
                assert(forall|m: int| 0 <= m < k ==> rest[m] == s@[i + m] && rest[m] != ' ');
                lemma_tokens_take_token(rest, k);
                assert(rest.subrange(0, k) =~= s@.subrange(i as int, j as int));
                assert(rest.subrange(k, rest.len() as int) =~= s@.subrange(j as int, n as int));
                let f = |t: String| t@;
                assert(toks@.push(tok).map_values(f) =~= toks@.map_values(f).push(tok@));
            }
            toks.push(tok);
            i = j;
        }
    }
    proof {
        assert(s@.subrange(i as int, n as int) =~= Seq::<char>::empty());
        assert(toks@.map_values(|t: String| t@) + tokens(Seq::<char>::empty()) =~= toks@.map_values(
            |t: String| t@,
        ));
    }
    toks
}

} // verus!
