//! Whitespace tokenization of command strings and trailing-whitespace
//! trimming of command output, with their mathematical definitions.

use vstd::prelude::*;
use vstd::string::StrSliceExecFns;

verus! {

/// A character with the Unicode `White_Space` property: the set that
/// whitespace splitting and end trimming work over.
pub open spec fn is_wspace(c: char) -> bool {
    let u = c as u32;
    ||| u == 0x09
    ||| u == 0x0A
    ||| u == 0x0B
    ||| u == 0x0C
    ||| u == 0x0D
    ||| u == 0x20
    ||| u == 0x85
    ||| u == 0xA0
    ||| u == 0x1680
    ||| (0x2000 <= u && u <= 0x200A)
    ||| u == 0x2028
    ||| u == 0x2029
    ||| u == 0x202F
    ||| u == 0x205F
    ||| u == 0x3000
}

/// Runtime test for [`is_wspace`].
pub fn is_wspace_char(c: char) -> (r: bool)
    ensures
        r == is_wspace(c),
{
    let u = c as u32;
    u == 0x09 || u == 0x0A || u == 0x0B || u == 0x0C || u == 0x0D || u == 0x20 || u == 0x85
        || u == 0xA0 || u == 0x1680 || (0x2000 <= u && u <= 0x200A) || u == 0x2028 || u == 0x2029
        || u == 0x202F || u == 0x205F || u == 0x3000
}

/// The whitespace-separated tokens of `s`, in order: maximal runs of
/// non-whitespace characters. Defined by recursion on the last character:
/// a whitespace character adds nothing, a non-whitespace character either
/// extends the token it follows or opens a new one.
pub open spec fn tokens_of(s: Seq<char>) -> Seq<Seq<char>>
    decreases s.len(),
{
    if s.len() == 0 {
        Seq::empty()
    } else {
        let p = s.drop_last();
        let ts = tokens_of(p);
        if is_wspace(s.last()) {
            ts
        } else if p.len() > 0 && !is_wspace(p.last()) {
            ts.update(ts.len() - 1, ts.last().push(s.last()))
        } else {
            ts.push(seq![s.last()])
        }
    }
}

/// `s` with every trailing whitespace character removed.
pub open spec fn trimmed_end(s: Seq<char>) -> Seq<char>
    decreases s.len(),
{
    if s.len() == 0 {
        s
    } else if is_wspace(s.last()) {
        trimmed_end(s.drop_last())
    } else {
        s
    }
}

/// A string tokenizes to nothing exactly when it consists of whitespace alone.
pub proof fn lemma_tokens_empty_iff_all_wspace(s: Seq<char>)
    ensures
        tokens_of(s).len() == 0 <==> (forall|i: int| 0 <= i < s.len() ==> is_wspace(s[i])),
    decreases s.len(),
{
    if s.len() > 0 {
        let p = s.drop_last();
        lemma_tokens_empty_iff_all_wspace(p);
        if is_wspace(s.last()) {
            assert forall|i: int| 0 <= i < s.len() && tokens_of(s).len() == 0 implies is_wspace(
                s[i],
            ) by {
                if i < s.len() - 1 {
                    assert(p[i] == s[i]);
                }
            }
        } else {
            assert(!is_wspace(s[s.len() - 1]));
            assert(tokens_of(s).len() > 0);
        }
    }
}

/// Every token is non-empty: a token is a maximal run of at least one
/// non-whitespace character.
pub proof fn lemma_tokens_nonempty(s: Seq<char>)
    ensures
        forall|i: int| 0 <= i < tokens_of(s).len() ==> #[trigger] tokens_of(s)[i].len() > 0,
    decreases s.len(),
{
    if s.len() > 0 {
        let p = s.drop_last();
        lemma_tokens_nonempty(p);
        let ts = tokens_of(p);
        if !is_wspace(s.last()) && p.len() > 0 && !is_wspace(p.last()) {
            lemma_tokens_empty_iff_all_wspace(p);
            assert(ts.len() > 0);
            assert forall|i: int| 0 <= i < tokens_of(s).len() implies #[trigger] tokens_of(
                s,
            )[i].len() > 0 by {
                if i == ts.len() - 1 {
                    assert(tokens_of(s)[i] == ts.last().push(s.last()));
                } else {
                    assert(tokens_of(s)[i] == ts[i]);
                }
            }
        }
    }
}

/// Appending a whitespace character leaves the tokens unchanged.
proof fn lemma_tokens_past_wspace(s: Seq<char>, i: int)
    requires
        0 <= i < s.len(),
        is_wspace(s[i]),
    ensures
        tokens_of(s.subrange(0, i + 1)) == tokens_of(s.subrange(0, i)),
{
    let q = s.subrange(0, i + 1);
    assert(q.last() == s[i]);
    assert(q.drop_last() =~= s.subrange(0, i));
}

/// A maximal non-whitespace run `s[start..i]` that begins at the string's
/// start or right after a whitespace character forms one whole new token.
proof fn lemma_token_extends(s: Seq<char>, start: int, i: int)
    requires
        0 <= start < i <= s.len(),
        forall|j: int| start <= j < i ==> !is_wspace(s[j]),
        start == 0 || is_wspace(s[start - 1]),
    ensures
        tokens_of(s.subrange(0, i)) == tokens_of(s.subrange(0, start)).push(
            s.subrange(start, i),
        ),
    decreases i - start,
{
    let q = s.subrange(0, i);
    let p = q.drop_last();
    assert(p =~= s.subrange(0, i - 1));
    assert(q.last() == s[i - 1]);
    assert(!is_wspace(q.last()));
    if i == start + 1 {
        if start == 0 {
            assert(tokens_of(q) == tokens_of(p).push(seq![s[start]]));
        } else {
            assert(p.last() == s[start - 1]);
            assert(tokens_of(q) == tokens_of(p).push(seq![s[start]]));
        }
        assert(seq![s[start]] =~= s.subrange(start, i));
    } else {
        lemma_token_extends(s, start, i - 1);
        let prev = tokens_of(s.subrange(0, start)).push(s.subrange(start, i - 1));
        assert(tokens_of(p) == prev);
        assert(p.last() == s[i - 2]);
        assert(!is_wspace(p.last()));
        assert(prev.len() > 0);
        assert(tokens_of(q) == prev.update(prev.len() - 1, prev.last().push(s[i - 1])));
        assert(prev.last() == s.subrange(start, i - 1));
        assert(s.subrange(start, i - 1).push(s[i - 1]) =~= s.subrange(start, i));
        assert(prev.update(prev.len() - 1, prev.last().push(s[i - 1])) =~= tokens_of(
            s.subrange(0, start),
        ).push(s.subrange(start, i)));
    }
}

/// Splits `s` on whitespace into its tokens.
pub fn tokenize(s: &str) -> (toks: Vec<String>)
    ensures
        toks.deep_view() == tokens_of(s@),
{
    let n = s.unicode_len();
    let mut toks: Vec<String> = Vec::new();
    let mut i: usize = 0;
    let mut start: Option<usize> = None;
    while i < n
        invariant
            n == s@.len(),
            i <= n,
            match start {
                Option::None => toks.deep_view() == tokens_of(s@.subrange(0, i as int)) && (i == 0
                    || is_wspace(s@[i as int - 1])),
                Option::Some(k) => toks.deep_view() == tokens_of(s@.subrange(0, k as int)) && k < i
                    && (k == 0 || is_wspace(s@[k as int - 1])) && (forall|j: int|
                    k <= j < i ==> !is_wspace(s@[j])),
            },
        decreases n - i,
    {
        let c = s.get_char(i);
        if is_wspace_char(c) {
            match start {
                Option::None => {
                    proof {
                        lemma_tokens_past_wspace(s@, i as int);
                    }
                },
                Option::Some(k) => {
                    proof {
                        lemma_token_extends(s@, k as int, i as int);
                    }
                    let tok = s.substring_char(k, i).to_owned();
                    let ghost before = toks.deep_view();
                    toks.push(tok);
                    proof {
                        assert(toks.deep_view() =~= before.push(tok@));
                        lemma_tokens_past_wspace(s@, i as int);
                    }
                    start = None;
                },
            }
        } else {
            if start.is_none() {
                start = Some(i);
            }
        }
        i = i + 1;
    }
    match start {
        Option::None => {
            proof {
                assert(s@.subrange(0, n as int) =~= s@);
            }
        },
        Option::Some(k) => {
            proof {
                lemma_token_extends(s@, k as int, n as int);
            }
            let tok = s.substring_char(k, n).to_owned();
            let ghost before = toks.deep_view();
            toks.push(tok);
            proof {
                assert(toks.deep_view() =~= before.push(tok@));
                assert(s@.subrange(0, n as int) =~= s@);
            }
        },
    }
    toks
}

/// Removes every trailing whitespace character of `s`.
pub fn trim_end(s: &str) -> (r: String)
    ensures
        r@ == trimmed_end(s@),
{
    let n = s.unicode_len();
    proof {
        assert(s@.subrange(0, n as int) =~= s@);
    }
    let mut j: usize = n;
    let mut stop: bool = false;
    while j > 0 && !stop
        invariant
            n == s@.len(),
            j <= n,
            trimmed_end(s@) == trimmed_end(s@.subrange(0, j as int)),
            stop ==> j > 0 && !is_wspace(s@[j as int - 1]),
        decreases j + (if stop { 0int } else { 1int }),
    {
        if is_wspace_char(s.get_char(j - 1)) {
            proof {
                let q = s@.subrange(0, j as int);
                assert(q.last() == s@[j as int - 1]);
                assert(q.drop_last() =~= s@.subrange(0, j as int - 1));
            }
            j = j - 1;
        } else {
            stop = true;
        }
    }
    if j == 0 {
        String::new()
    } else {
        proof {
            let q = s@.subrange(0, j as int);
            assert(q.last() == s@[j as int - 1]);
        }
        s.substring_char(0, j).to_owned()
    }
}

} // verus!
