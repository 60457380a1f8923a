use crate::numbers::{dec_number_val, is_dec_number, parse_u64_str};
use crate::split::{spec_split, split_str};
use vstd::prelude::*;

verus! {

/// Failure modes of the expiration grammar.
#[derive(Debug, PartialEq, Eq, Clone)]
pub enum ExpirationError {
    /// A token whose numeric part is not a non-negative decimal integer that
    /// fits the duration width; carries the offending token verbatim.
    BadToken(String),
    /// More than one token carries the default marker.
    MultipleDefaults,
    /// A duration value occurs twice; carries the repeated value.
    DuplicateValue(u64),
}

/// An ordered, duplicate-free list of candidate time-to-live values in
/// seconds (zero meaning "never expires"), with exactly one entry designated
/// as the default selection.
#[derive(Debug, PartialEq, Eq, Clone)]
pub struct ExpirationSet {
    /// Candidate durations, in the order the input listed them.
    pub values: Vec<u64>,
    /// Index of the entry offered as the pre-selected default.
    pub default_index: usize,
}

impl ExpirationSet {
    /// The invariant every resolved expiration set satisfies: at least one
    /// entry, a default index in range, and pairwise distinct values.
    pub open spec fn wf(self) -> bool {
        &&& self.values@.len() >= 1
        &&& self.default_index < self.values@.len()
        &&& forall|i: int, j: int|
            0 <= i < j < self.values@.len() ==> self.values@[i] != self.values@[j]
    }
}

/// Whether a token carries the trailing default marker `=d`.
pub open spec fn tok_marked(t: Seq<char>) -> bool {
    t.len() >= 2 && t[t.len() - 2] == '=' && t[t.len() - 1] == 'd'
}

/// The numeric part of a token: the token with the default marker removed.
pub open spec fn tok_body(t: Seq<char>) -> Seq<char> {
    if tok_marked(t) {
        t.take(t.len() - 2)
    } else {
        t
    }
}

/// Whether a token is well formed: its numeric part is a non-negative
/// decimal integer whose value fits the duration width.
pub open spec fn tok_ok(t: Seq<char>) -> bool {
    is_dec_number(tok_body(t)) && dec_number_val(tok_body(t)) <= u64::MAX
}

/// Duration value of a well-formed token.
pub open spec fn tok_val(t: Seq<char>) -> u64
    recommends
        tok_ok(t),
{
    dec_number_val(tok_body(t)) as u64
}

/// Outcome of reading a token list under the expiration grammar.
pub enum ExpirationOutcome {
    /// Every token was well formed, at most one was marked, and no value
    /// repeated; `default_index` is the marked position, or zero when no
    /// token was marked (a fixed policy choice: the first entry).
    Parsed { values: Seq<u64>, default_index: int },
    /// The leftmost failure was a malformed token.
    BadToken { token: Seq<char> },
    /// The leftmost failure was a second default marker.
    MultipleDefaults,
    /// The leftmost failure was a repeated duration value.
    DuplicateValue { value: u64 },
}

/// Option view of the marked index, for stating loop invariants.
pub open spec fn mark_view(m: Option<usize>) -> Option<int> {
    match m {
        Some(i) => Some(i as int),
        None => None,
    }
}

/// Reads tokens `k..` in order, given the values and the marked index seen in
/// tokens `..k`, and yields the outcome of the whole list.
pub open spec fn run_tokens(
    toks: Seq<Seq<char>>,
    k: int,
    vals: Seq<u64>,
    mark: Option<int>,
) -> ExpirationOutcome
    decreases toks.len() - k,
    when 0 <= k <= toks.len()
{
    if k >= toks.len() {
        ExpirationOutcome::Parsed {
            values: vals,
            default_index: match mark {
                Some(m) => m,
                None => 0,
            },
        }
    } else {
        let t = toks[k];
        if !tok_ok(t) {
            ExpirationOutcome::BadToken { token: t }
        } else if tok_marked(t) && mark is Some {
            ExpirationOutcome::MultipleDefaults
        } else if vals.contains(tok_val(t)) {
            ExpirationOutcome::DuplicateValue { value: tok_val(t) }
        } else {
            run_tokens(
                toks,
                k + 1,
                vals.push(tok_val(t)),
                if tok_marked(t) {
                    Some(k)
                } else {
                    mark
                },
            )
        }
    }
}

/// Outcome of the expiration grammar on a whole input string.
pub open spec fn parse_outcome(s: Seq<char>) -> ExpirationOutcome {
    run_tokens(spec_split(s, ','), 0, Seq::empty(), None)
}

fn contains_u64(v: &Vec<u64>, x: u64) -> (r: bool)
    ensures
        r == v@.contains(x),
{
    let mut i: usize = 0;
    while i < v.len()
        invariant
            0 <= i <= v@.len(),
            forall|j: int| 0 <= j < i ==> v@[j] != x,
        decreases v@.len() - i,
    {
        if v[i] == x {
            return true;
        }
        i = i + 1;
    }
    assert(!v@.contains(x));
    false
}

/// Parses the expiration grammar: a comma-separated list of non-negative
/// durations in seconds, at most one carrying the trailing `=d` default
/// marker. Order is preserved; duplicates are rejected; when no token is
/// marked, the first entry is designated the default.
pub fn parse_expiration_set(s: &str) -> (r: Result<ExpirationSet, ExpirationError>)
    ensures
        r is Ok <==> parse_outcome(s@) is Parsed,
        parse_outcome(s@) matches ExpirationOutcome::Parsed { values, default_index } ==> (
        r matches Ok(set) && set.values@ == values && set.default_index == default_index
            && set.wf()),
        parse_outcome(s@) matches ExpirationOutcome::BadToken { token } ==> (r matches Err(
            ExpirationError::BadToken(t),
        ) && t@ == token),
        parse_outcome(s@) is MultipleDefaults ==> r matches Err(
            ExpirationError::MultipleDefaults,
        ),
        parse_outcome(s@) matches ExpirationOutcome::DuplicateValue { value } ==> r matches Err(
            ExpirationError::DuplicateValue(v),
        ) && v == value,
{
    let toks = split_str(s, ',');
    let mut vals: Vec<u64> = Vec::new();
    let mut mark: Option<usize> = None;
    let mut k: usize = 0;
    proof {
        assert(vals@ =~= Seq::<u64>::empty());
    }
    while k < toks.len()
        invariant
            0 <= k <= toks@.len(),
            toks.deep_view() == spec_split(s@, ','),
            toks@.len() == toks.deep_view().len(),
            vals@.len() == k,
            mark matches Some(m) ==> m < k,
            forall|i: int, j: int| 0 <= i < j < vals@.len() ==> vals@[i] != vals@[j],
            run_tokens(toks.deep_view(), k as int, vals@, mark_view(mark)) == parse_outcome(s@),
        decreases toks@.len() - k,
    {
        let t: &String = &toks[k];
        proof {
            assert(t@ == toks.deep_view()[k as int]);
        }
        let ts: &str = t.as_str();
        let tn = ts.unicode_len();
        let marked = tn >= 2 && ts.get_char(tn - 2) == '=' && ts.get_char(tn - 1) == 'd';
        proof {
            assert(marked == tok_marked(t@));
        }
        let body: &str = if marked {
            ts.substring_char(0, tn - 2)
        } else {
            ts
        };
        proof {
            assert(body@ =~= tok_body(t@));
        }
        match parse_u64_str(body) {
            None => {
                assert(!tok_ok(t@));
                return Err(ExpirationError::BadToken(t.clone()));
            },
            Some(v) => {
                assert(tok_ok(t@) && v == tok_val(t@));
                if marked && mark.is_some() {
                    return Err(ExpirationError::MultipleDefaults);
                }
                if contains_u64(&vals, v) {
                    return Err(ExpirationError::DuplicateValue(v));
                }
                vals.push(v);
                if marked {
                    mark = Some(k);
                }
            },
        }
        k = k + 1;
    }
    let default_index = match mark {
        Some(m) => m,
        None => 0,
    };
    proof {
        assert(toks@.len() >= 1);
    }
    Ok(ExpirationSet { values: vals, default_index })
}

/// When the grammar accepts a token list, the entries come out one per token
/// in the order given, each with its token's value, pairwise distinct, and
/// the default index stays in range.
pub proof fn lemma_run_tokens_parsed(toks: Seq<Seq<char>>, k: int, vals: Seq<u64>, mark: Option<
    int,
>)
    requires
        0 <= k <= toks.len(),
        vals.len() == k,
        mark matches Some(m) ==> 0 <= m < k,
        forall|i: int, j: int| 0 <= i < j < vals.len() ==> vals[i] != vals[j],
        run_tokens(toks, k, vals, mark) is Parsed,
    ensures
        ({
            let out = run_tokens(toks, k, vals, mark);
            &&& out->values.len() == vals.len() + toks.len() - k
            &&& forall|i: int| 0 <= i < vals.len() ==> out->values[i] == vals[i]
            &&& forall|i: int|
                k <= i < toks.len() ==> tok_ok(toks[i]) && out->values[vals.len() + i - k]
                    == tok_val(toks[i])
            &&& forall|i: int, j: int|
                0 <= i < j < out->values.len() ==> out->values[i] != out->values[j]
            &&& 0 <= out->default_index
            &&& vals.len() + toks.len() - k >= 1 ==> out->default_index < vals.len() + toks.len()
                - k
        }),
    decreases toks.len() - k,
{
    if k >= toks.len() {
    } else {
        let t = toks[k];
        let out = run_tokens(toks, k, vals, mark);
        assert(tok_ok(t));
        assert(!vals.contains(tok_val(t)));
        let vals2 = vals.push(tok_val(t));
        let mark2 = if tok_marked(t) {
            Some(k)
        } else {
            mark
        };
        assert forall|i: int, j: int| 0 <= i < j < vals2.len() implies vals2[i] != vals2[j] by {
            if j == vals.len() {
                if vals2[i] == tok_val(t) {
                    assert(vals.contains(tok_val(t)));
                }
            }
        }
        lemma_run_tokens_parsed(toks, k + 1, vals2, mark2);
        assert(out == run_tokens(toks, k + 1, vals2, mark2));
        assert forall|i: int|
            k <= i < toks.len() implies tok_ok(toks[i]) && out->values[vals.len() + i - k]
            == tok_val(toks[i]) by {
            if i == k {
                assert(out->values[vals.len() as int] == vals2[vals.len() as int]);
            } else {
                assert(out->values[vals2.len() + i - (k + 1)] == tok_val(toks[i]));
            }
        }
        assert forall|i: int| 0 <= i < vals.len() implies out->values[i] == vals[i] by {
            assert(out->values[i] == vals2[i]);
            assert(vals2[i] == vals[i]);
        }
    }
}

/// The grammar preserves order and values: whenever an input parses, the
/// resulting entries correspond one to one, in order, to the input's
/// comma-separated tokens.
pub proof fn lemma_parse_outcome_ordered(s: Seq<char>)
    requires
        parse_outcome(s) is Parsed,
    ensures
        ({
            let out = parse_outcome(s);
            let toks = spec_split(s, ',');
            &&& out->values.len() == toks.len()
            &&& forall|i: int|
                0 <= i < toks.len() ==> tok_ok(toks[i]) && out->values[i] == tok_val(toks[i])
            &&& forall|i: int, j: int|
                0 <= i < j < out->values.len() ==> out->values[i] != out->values[j]
            &&& 0 <= out->default_index < out->values.len()
        }),
{
    crate::split::lemma_split_nonempty(s, ',');
    lemma_run_tokens_parsed(spec_split(s, ','), 0, Seq::empty(), None);
}

} // verus!
