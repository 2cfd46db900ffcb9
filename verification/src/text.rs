use vstd::prelude::*;

verus! {

/// Relies on str::chars: yields the characters of the string in order, which
/// is exactly the string's view.
#[verifier::external_body]
pub(crate) fn str_chars(s: &str) -> (r: Vec<char>)
    ensures
        r@ == s@,
{
    s.chars().collect()
}

/// Relies on String's FromIterator over characters: the collected string
/// holds exactly the given characters in order.
#[verifier::external_body]
pub(crate) fn string_from_chars(v: &Vec<char>) -> (r: String)
    ensures
        r@ == v@,
{
    v.iter().collect()
}

/// What the pieces looked like before they were split on commas: the pieces
/// joined again, a comma between each two.
pub open spec fn join_csv(parts: Seq<Seq<char>>) -> Seq<char>
    decreases parts.len(),
{
    if parts.len() == 0 {
        Seq::empty()
    } else if parts.len() == 1 {
        parts[0]
    } else {
        parts[0] + seq![','] + join_csv(parts.drop_first())
    }
}

/// Appending one more piece appends one comma and the piece.
proof fn lemma_join_csv_push(parts: Seq<Seq<char>>, a: Seq<char>)
    ensures
        join_csv(parts.push(a)) == if parts.len() == 0 {
            a
        } else {
            join_csv(parts) + seq![','] + a
        },
    decreases parts.len(),
{
    if parts.len() == 0 {
        assert(parts.push(a)[0] == a);
    } else {
        assert(parts.push(a).drop_first() =~= parts.drop_first().push(a));
        lemma_join_csv_push(parts.drop_first(), a);
        assert(parts.push(a)[0] == parts[0]);
        if parts.len() == 1 {
            assert(join_csv(parts.push(a)) == parts[0] + seq![','] + a);
        } else {
            assert(join_csv(parts) + seq![','] + a =~= parts[0] + seq![','] + (join_csv(
                parts.drop_first(),
            ) + seq![','] + a));
        }
    }
}

/// Splits on commas. The result is pinned down by three facts: no piece
/// holds a comma, joining the pieces with commas gives back the input, and
/// there is at least one piece (an input without commas is one piece).
pub fn split_csv(s: &str) -> (r: Vec<String>)
    ensures
        r@.len() >= 1,
        join_csv(r.deep_view()) == s@,
        forall|i: int| 0 <= i < r@.len() ==> !(#[trigger] r.deep_view()[i]).contains(','),
{
    let cs = str_chars(s);
    let mut out: Vec<String> = Vec::new();
    let mut cur: Vec<char> = Vec::new();
    let mut i: usize = 0;
    while i < cs.len()
        invariant
            i <= cs@.len(),
            cs@ == s@,
            join_csv(out.deep_view().push(cur@)) + cs@.subrange(i as int, cs@.len() as int)
                == s@,
            forall|k: int| 0 <= k < out@.len() ==> !(#[trigger] out.deep_view()[k]).contains(','),
            !cur@.contains(','),
        decreases cs@.len() - i,
    {
        let ghost out0 = out.deep_view();
        let ghost cur0 = cur@;
        let c = cs[i];
        proof {
            assert(cs@.subrange(i as int, cs@.len() as int) =~= seq![cs@[i as int]] + cs@.subrange(
                i + 1,
                cs@.len() as int,
            ));
        }
        if c == ',' {
            let piece = string_from_chars(&cur);
            out.push(piece);
            cur = Vec::new();
            proof {
                assert(out.deep_view() =~= out0.push(cur0));
                lemma_join_csv_push(out0.push(cur0), Seq::empty());
                lemma_join_csv_push(out0, cur0);
                assert(join_csv(out.deep_view().push(cur@)) + cs@.subrange(
                    i + 1,
                    cs@.len() as int,
                ) =~= join_csv(out0.push(cur0)) + seq![','] + cs@.subrange(
                    i + 1,
                    cs@.len() as int,
                ));
            }
        } else {
            cur.push(c);
            proof {
                lemma_join_csv_push(out0, cur0.push(c));
                lemma_join_csv_push(out0, cur0);
                assert(join_csv(out0.push(cur0.push(c))) =~= join_csv(out0.push(cur0)) + seq![c]);
                assert(join_csv(out.deep_view().push(cur@)) + cs@.subrange(
                    i + 1,
                    cs@.len() as int,
                ) =~= (join_csv(out0.push(cur0)) + cs@.subrange(i as int, cs@.len() as int)));
            }
        }
        i += 1;
    }
    let ghost out0 = out.deep_view();
    let ghost cur0 = cur@;
    let piece = string_from_chars(&cur);
    out.push(piece);
    proof {
        assert(out.deep_view() =~= out0.push(cur0));
        assert(cs@.subrange(cs@.len() as int, cs@.len() as int) =~= Seq::<char>::empty());
        assert(join_csv(out0.push(cur0)) + Seq::<char>::empty() =~= join_csv(out0.push(cur0)));
    }
    out
}

} // verus!
