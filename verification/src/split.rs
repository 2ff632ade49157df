//! Splitting a token on the '-' delimiter, and how the split behaves on
//! delimiter-free strings and on concatenations around a delimiter.

use vstd::prelude::*;

verus! {

/// The delimiter between fields of the token.
pub const DASH: u8 = 0x2d;

/// The fields of `s`, split on every delimiter byte: always at least one
/// field, with an empty field between adjacent delimiters.
pub open spec fn spec_split(s: Seq<u8>) -> Seq<Seq<u8>>
    decreases s.len(),
{
    if s.len() == 0 {
        seq![Seq::empty()]
    } else if s.last() == DASH {
        spec_split(s.drop_last()).push(Seq::empty())
    } else {
        let r = spec_split(s.drop_last());
        r.update(r.len() - 1, r.last().push(s.last()))
    }
}

/// A split always yields at least one field.
pub proof fn lemma_split_nonempty(s: Seq<u8>)
    ensures
        spec_split(s).len() >= 1,
    decreases s.len(),
{
    if s.len() > 0 {
        lemma_split_nonempty(s.drop_last());
    }
}

/// A string without the delimiter splits into itself alone.
pub proof fn lemma_split_no_dash(s: Seq<u8>)
    requires
        forall|i: int| 0 <= i < s.len() ==> s[i] != DASH,
    ensures
        spec_split(s) == seq![s],
    decreases s.len(),
{
    if s.len() == 0 {
        assert(spec_split(s) =~~= seq![s]);
    } else {
        lemma_split_no_dash(s.drop_last());
        assert(s.drop_last().push(s.last()) =~~= s);
        assert(spec_split(s) =~~= seq![s]);
    }
}

/// Splitting around one delimiter splits the two sides independently.
pub proof fn lemma_split_around_dash(x: Seq<u8>, y: Seq<u8>)
    ensures
        spec_split(x + seq![DASH] + y) == spec_split(x) + spec_split(y),
    decreases y.len(),
{
    lemma_split_nonempty(x);
    if y.len() == 0 {
        let s = x + seq![DASH] + y;
        assert(s.len() > 0 && s.last() == DASH);
        assert(s.drop_last() =~~= x);
        assert(spec_split(s) =~~= spec_split(x) + spec_split(y));
    } else {
        lemma_split_around_dash(x, y.drop_last());
        lemma_split_nonempty(y.drop_last());
        let s = x + seq![DASH] + y;
        assert(s.drop_last() =~~= x + seq![DASH] + y.drop_last());
        assert(s.last() == y.last());
        if y.last() == DASH {
            assert(spec_split(s) =~~= spec_split(x) + spec_split(y));
        } else {
            let r = spec_split(x) + spec_split(y.drop_last());
            assert(r.last() == spec_split(y.drop_last()).last());
            assert(spec_split(s) == r.update(r.len() - 1, r.last().push(y.last())));
            assert(spec_split(s) =~~= spec_split(x) + spec_split(y));
        }
    }
}

/// Split a token on the delimiter byte.
pub fn split_dash(s: &Vec<u8>) -> (parts: Vec<Vec<u8>>)
    ensures
        parts@.map_values(|p: Vec<u8>| p@) == spec_split(s@),
{
    let mut parts: Vec<Vec<u8>> = Vec::new();
    let mut cur: Vec<u8> = Vec::new();
    let mut i: usize = 0;
    while i < s.len()
        invariant
            0 <= i <= s@.len(),
            parts@.map_values(|p: Vec<u8>| p@).push(cur@) == spec_split(s@.take(i as int)),
        decreases s@.len() - i,
    {
        proof {
            assert(s@.take(i + 1).drop_last() =~~= s@.take(i as int));
            assert(s@.take(i + 1).last() == s@[i as int]);
        }
        let ghost prev_fields = parts@.map_values(|p: Vec<u8>| p@);
        if s[i] == DASH {
            parts.push(cur);
            cur = Vec::new();
            proof {
                assert(parts@.map_values(|p: Vec<u8>| p@) =~~= prev_fields.push(
                    parts@.last()@,
                ));
                assert(parts@.map_values(|p: Vec<u8>| p@).push(cur@) =~~= spec_split(
                    s@.take(i + 1),
                ));
            }
        } else {
            let b = s[i];
            cur.push(b);
            proof {
                let r = spec_split(s@.take(i as int));
                assert(spec_split(s@.take(i + 1)) == r.update(r.len() - 1, r.last().push(b)));
                assert(prev_fields.push(cur@) =~~= spec_split(s@.take(i + 1)));
            }
        }
        i = i + 1;
    }
    proof {
        assert(s@.take(s@.len() as int) =~~= s@);
    }
    parts.push(cur);
    proof {
        assert(parts@.map_values(|p: Vec<u8>| p@) =~~= spec_split(s@));
    }
    parts
}

} // verus!
