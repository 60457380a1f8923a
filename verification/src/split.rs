use vstd::prelude::*;

verus! {

/// The pieces of `s` between occurrences of the delimiter `d`, in order.
/// As with std's `split`, an empty input yields one empty piece, and
/// adjacent delimiters yield empty pieces.
pub open spec fn spec_split(s: Seq<char>, d: char) -> Seq<Seq<char>>
    decreases s.len(),
{
    if s.len() == 0 {
        seq![Seq::<char>::empty()]
    } else if s[0] == d {
        seq![Seq::<char>::empty()] + spec_split(s.drop_first(), d)
    } else {
        let rest = spec_split(s.drop_first(), d);
        seq![seq![s[0]] + rest[0]] + rest.drop_first()
    }
}

/// A split always has at least one piece.
pub proof fn lemma_split_nonempty(s: Seq<char>, d: char)
    ensures
        spec_split(s, d).len() >= 1,
{
}

/// The first piece of a split, extended to the left by `p`.
pub open spec fn prepend_first(p: Seq<char>, pieces: Seq<Seq<char>>) -> Seq<Seq<char>>
    recommends
        pieces.len() >= 1,
{
    seq![p + pieces[0]] + pieces.drop_first()
}

/// Splits `s` at every occurrence of the delimiter `d`, in order.
pub fn split_str(s: &str, d: char) -> (r: Vec<String>)
    ensures
        r.deep_view() == spec_split(s@, d),
        r@.len() >= 1,
{
    let n = s.unicode_len();
    let mut r: Vec<String> = Vec::new();
    let mut start: usize = 0;
    let mut i: usize = 0;
    proof {
        assert(r.deep_view() =~~= Seq::<Seq<char>>::empty());
        assert(Seq::<char>::empty() + spec_split(s@, d)[0] =~= spec_split(s@, d)[0]);
        assert(prepend_first(s@.subrange(0, 0), spec_split(s@.subrange(0, s@.len() as int), d))
            =~~= spec_split(s@, d)) by {
            assert(s@.subrange(0, s@.len() as int) =~= s@);
            assert(s@.subrange(0, 0) =~= Seq::<char>::empty());
        }
    }
    while i < n
        invariant
            0 <= start <= i <= n,
            n == s@.len(),
            spec_split(s@, d) =~~= r.deep_view() + prepend_first(
                s@.subrange(start as int, i as int),
                spec_split(s@.subrange(i as int, n as int), d),
            ),
            spec_split(s@.subrange(i as int, n as int), d).len() >= 1,
        decreases n - i,
    {
        let ghost cur = s@.subrange(start as int, i as int);
        let ghost tail = s@.subrange(i as int, n as int);
        let ghost tail1 = s@.subrange(i + 1, n as int);
        proof {
            assert(tail.len() > 0);
            assert(tail[0] == s@[i as int]);
            assert(tail.drop_first() =~= tail1);
        }
        let c = s.get_char(i);
        if c == d {
            let piece = s.substring_char(start, i).to_owned();
            proof {
                assert(spec_split(tail, d) =~~= seq![Seq::<char>::empty()] + spec_split(tail1, d));
                assert(cur + Seq::<char>::empty() =~= cur);
                assert(r.deep_view() + prepend_first(cur, spec_split(tail, d)) =~~= r.deep_view()
                    + seq![cur] + prepend_first(Seq::<char>::empty(), spec_split(tail1, d))) by {
                    assert(Seq::<char>::empty() + spec_split(tail1, d)[0] =~= spec_split(
                        tail1,
                        d,
                    )[0]);
                }
            }
            r.push(piece);
            proof {
                assert(r.deep_view() =~~= r.deep_view().drop_last() + seq![cur]);
                assert(s@.subrange(i + 1, i + 1) =~= Seq::<char>::empty());
            }
            start = i + 1;
        } else {
            proof {
                let rest = spec_split(tail1, d);
                assert(spec_split(tail, d) =~~= seq![seq![s@[i as int]] + rest[0]]
                    + rest.drop_first());
                assert(cur + (seq![s@[i as int]] + rest[0]) =~= s@.subrange(start as int, i + 1)
                    + rest[0]);
                assert(prepend_first(cur, spec_split(tail, d)) =~~= prepend_first(
                    s@.subrange(start as int, i + 1),
                    rest,
                ));
            }
        }
        i = i + 1;
    }
    let last = s.substring_char(start, n).to_owned();
    proof {
        let cur = s@.subrange(start as int, n as int);
        assert(s@.subrange(n as int, n as int) =~= Seq::<char>::empty());
        assert(spec_split(s@.subrange(n as int, n as int), d) =~~= seq![Seq::<char>::empty()]);
        assert(prepend_first(cur, seq![Seq::<char>::empty()]) =~~= seq![cur]) by {
            assert(cur + Seq::<char>::empty() =~= cur);
        }
    }
    r.push(last);
    proof {
        assert(r.deep_view() =~~= r.deep_view().drop_last() + seq![
            s@.subrange(start as int, n as int),
        ]);
    }
    r
}

} // verus!
