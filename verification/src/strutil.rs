//! Small verified helpers over `&str`: equality, prefix test, locating a
//! separator, and splitting into separator-delimited tokens. The capability
//! parser and the negotiation engine are built on these.

use vstd::prelude::*;

verus! {

/// First index at which `sep` occurs in `s`, if any.
pub open spec fn spec_find(s: Seq<char>, sep: char) -> Option<int>
    decreases s.len(),
{
    if s.len() == 0 {
        None
    } else if s[0] == sep {
        Some(0int)
    } else {
        match spec_find(s.skip(1), sep) {
            None => None,
            Some(j) => Some(j + 1),
        }
    }
}

/// `spec_find` names the first occurrence of the separator.
pub(crate) proof fn lemma_spec_find(s: Seq<char>, sep: char)
    ensures
        match spec_find(s, sep) {
            Some(i) => 0 <= i < s.len() && s[i] == sep && (forall|j: int|
                0 <= j < i ==> s[j] != sep),
            None => forall|j: int| 0 <= j < s.len() ==> s[j] != sep,
        },
    decreases s.len(),
{
    if s.len() != 0 && s[0] != sep {
        lemma_spec_find(s.skip(1), sep);
        assert(forall|j: int| 1 <= j < s.len() ==> s[j] == #[trigger] s.skip(1)[j - 1]);
        match spec_find(s.skip(1), sep) {
            None => {
                assert forall|j: int| 0 <= j < s.len() implies s[j] != sep by {
                    if j >= 1 {
                        assert(s[j] == s.skip(1)[j - 1]);
                    }
                }
            },
            Some(k) => {
                assert(spec_find(s, sep) == Some(k + 1));
                assert(s[k + 1] == s.skip(1)[k]);
                assert forall|j: int| 0 <= j < k + 1 implies s[j] != sep by {
                    if j >= 1 {
                        assert(s[j] == s.skip(1)[j - 1]);
                    }
                }
            },
        }
    }
}

/// Any position holding the separator, with none before it, is what
/// `spec_find` returns.
proof fn lemma_spec_find_at(s: Seq<char>, sep: char, i: int)
    requires
        0 <= i < s.len(),
        s[i] == sep,
        forall|j: int| 0 <= j < i ==> s[j] != sep,
    ensures
        spec_find(s, sep) == Some(i),
    decreases s.len(),
{
    if i > 0 {
        lemma_spec_find_at(s.skip(1), sep, i - 1);
    }
}

/// A string without the separator is found to lack it.
proof fn lemma_spec_find_none(s: Seq<char>, sep: char)
    requires
        forall|j: int| 0 <= j < s.len() ==> s[j] != sep,
    ensures
        spec_find(s, sep) == None::<int>,
    decreases s.len(),
{
    if s.len() > 0 {
        lemma_spec_find_none(s.skip(1), sep);
    }
}

/// The separator-delimited tokens of `s`, empty tokens included: splitting
/// `"a,,b"` on `','` gives `["a", "", "b"]`.
pub open spec fn spec_split(s: Seq<char>, sep: char) -> Seq<Seq<char>>
    decreases s.len(),
{
    if s.len() == 0 {
        seq![s]
    } else if s[0] == sep {
        seq![Seq::<char>::empty()] + spec_split(s.skip(1), sep)
    } else {
        let rest = spec_split(s.skip(1), sep);
        seq![seq![s[0]] + rest[0]] + rest.skip(1)
    }
}

/// Splitting yields at least one token.
pub(crate) proof fn lemma_split_len(s: Seq<char>, sep: char)
    ensures
        spec_split(s, sep).len() >= 1,
    decreases s.len(),
{
    if s.len() != 0 {
        lemma_split_len(s.skip(1), sep);
    }
}

/// Without a separator the whole string is the single token.
proof fn lemma_split_no_sep(s: Seq<char>, sep: char)
    requires
        spec_find(s, sep) == None::<int>,
    ensures
        spec_split(s, sep) == seq![s],
    decreases s.len(),
{
    if s.len() != 0 {
        lemma_split_no_sep(s.skip(1), sep);
        let rest = spec_split(s.skip(1), sep);
        assert(rest[0] == s.skip(1));
        assert(seq![s[0]] + s.skip(1) =~= s);
        assert(rest.skip(1) =~= Seq::<Seq<char>>::empty());
        assert(seq![seq![s[0]] + rest[0]] + rest.skip(1) =~= seq![s]);
    }
}

/// With a first separator at `i`, the tokens are the part before it
/// followed by the tokens of the part after it.
proof fn lemma_split_sep(s: Seq<char>, sep: char, i: int)
    requires
        spec_find(s, sep) == Some(i),
    ensures
        0 <= i < s.len(),
        spec_split(s, sep) == seq![s.take(i)] + spec_split(s.skip(i + 1), sep),
    decreases s.len(),
{
    lemma_spec_find(s, sep);
    if s[0] == sep {
        assert(s.take(0) =~= Seq::<char>::empty());
        assert(s.skip(1) =~= s.skip(i + 1));
        assert(seq![Seq::<char>::empty()] + spec_split(s.skip(1), sep) =~= seq![s.take(i)]
            + spec_split(s.skip(i + 1), sep));
    } else {
        lemma_spec_find(s.skip(1), sep);
        assert(spec_find(s.skip(1), sep) == Some(i - 1));
        lemma_split_sep(s.skip(1), sep, i - 1);
        let rest = spec_split(s.skip(1), sep);
        assert(rest == seq![s.skip(1).take(i - 1)] + spec_split(s.skip(1).skip(i), sep));
        assert(rest[0] == s.skip(1).take(i - 1));
        assert(seq![s[0]] + s.skip(1).take(i - 1) =~= s.take(i));
        assert(s.skip(1).skip(i) =~= s.skip(i + 1));
        assert(rest.skip(1) =~= spec_split(s.skip(i + 1), sep));
        assert(seq![seq![s[0]] + rest[0]] + rest.skip(1) =~= seq![s.take(i)] + spec_split(
            s.skip(i + 1),
            sep,
        ));
    }
}

/// The token list with empty tokens removed.
pub open spec fn drop_empty(tokens: Seq<Seq<char>>) -> Seq<Seq<char>> {
    tokens.filter(|t: Seq<char>| t.len() != 0)
}

/// The views of a list of owned strings.
pub open spec fn views_of(v: Seq<String>) -> Seq<Seq<char>> {
    v.map_values(|s: String| s@)
}

/// True iff the two string slices hold the same characters.
pub(crate) fn str_eq(a: &str, b: &str) -> (r: bool)
    ensures
        r == (a@ == b@),
{
    let a_len = a.unicode_len();
    let b_len = b.unicode_len();
    if a_len != b_len {
        return false;
    }
    let mut i: usize = 0;
    while i < a_len
        invariant
            a_len == a@.len(),
            b_len == b@.len(),
            a_len == b_len,
            i <= a_len,
            forall|j: int| 0 <= j < i ==> a@[j] == b@[j],
        decreases a_len - i,
    {
        if a.get_char(i) != b.get_char(i) {
            return false;
        }
        i = i + 1;
    }
    proof {
        assert(a@ =~= b@);
    }
    true
}

/// True iff `p` is a prefix of `s`.
pub(crate) fn str_starts_with(s: &str, p: &str) -> (r: bool)
    ensures
        r == p@.is_prefix_of(s@),
{
    let s_len = s.unicode_len();
    let p_len = p.unicode_len();
    if p_len > s_len {
        return false;
    }
    let mut i: usize = 0;
    while i < p_len
        invariant
            s_len == s@.len(),
            p_len == p@.len(),
            p_len <= s_len,
            i <= p_len,
            forall|j: int| 0 <= j < i ==> s@[j] == p@[j],
        decreases p_len - i,
    {
        if s.get_char(i) != p.get_char(i) {
            return false;
        }
        i = i + 1;
    }
    proof {
        assert(p@ =~= s@.subrange(0, p@.len() as int));
    }
    true
}

/// Index of the first occurrence of `sep` in `s`, if any.
pub(crate) fn find_char(s: &str, sep: char) -> (r: Option<usize>)
    ensures
        match r {
            Some(i) => spec_find(s@, sep) == Some(i as int),
            None => spec_find(s@, sep) == None::<int>,
        },
{
    let len = s.unicode_len();
    let mut i: usize = 0;
    while i < len
        invariant
            len == s@.len(),
            i <= len,
            forall|j: int| 0 <= j < i ==> s@[j] != sep,
        decreases len - i,
    {
        if s.get_char(i) == sep {
            proof {
                lemma_spec_find_at(s@, sep, i as int);
            }
            return Some(i);
        }
        i = i + 1;
    }
    proof {
        lemma_spec_find_none(s@, sep);
    }
    None
}

/// The separator-delimited tokens of `s`, empty tokens included.
pub(crate) fn split_all(s: &str, sep: char) -> (r: Vec<String>)
    ensures
        views_of(r@) == spec_split(s@, sep),
{
    let mut out: Vec<String> = Vec::new();
    let mut rest: &str = s;
    loop
        invariant_except_break
            spec_split(s@, sep) == views_of(out@) + spec_split(rest@, sep),
        ensures
            views_of(out@) == spec_split(s@, sep),
        decreases rest@.len(),
    {
        match find_char(rest, sep) {
            None => {
                let ghost prev = out@;
                out.push(rest.to_owned());
                proof {
                    lemma_split_no_sep(rest@, sep);
                    assert(views_of(out@) =~= views_of(prev) + seq![rest@]);
                }
                break ;
            },
            Some(i) => {
                let ghost prev = out@;
                let ghost prev_rest = rest@;
                proof {
                    lemma_split_sep(prev_rest, sep, i as int);
                }
                let rest_len = rest.unicode_len();
                let token = rest.substring_char(0, i);
                out.push(token.to_owned());
                rest = rest.substring_char(i + 1, rest_len);
                proof {
                    assert(token@ =~= prev_rest.take(i as int));
                    assert(rest@ =~= prev_rest.skip(i as int + 1));
                    assert(views_of(out@) =~= views_of(prev) + seq![prev_rest.take(i as int)]);
                    assert((views_of(prev) + seq![prev_rest.take(i as int)]) + spec_split(
                        rest@,
                        sep,
                    ) =~= views_of(prev) + (seq![prev_rest.take(i as int)] + spec_split(
                        rest@,
                        sep,
                    )));
                }
            },
        }
    }
    out
}

} // verus!
