use vstd::prelude::*;

verus! {

use vstd::string::StrSliceExecFns;

/// Lexicographic "less or equal" on character sequences, comparing code
/// points position by position; a sequence that runs out first precedes.
/// ISO-8601 timestamps compare chronologically under this order, which is
/// why the index can sort summaries by their date strings.
pub open spec fn lex_leq(a: Seq<char>, b: Seq<char>) -> bool
    decreases a.len(),
{
    if a.len() == 0 {
        true
    } else if b.len() == 0 {
        false
    } else if (a[0] as int) < (b[0] as int) {
        true
    } else if (b[0] as int) < (a[0] as int) {
        false
    } else {
        lex_leq(a.drop_first(), b.drop_first())
    }
}

/// The order is reflexive.
pub proof fn lemma_lex_refl(a: Seq<char>)
    ensures
        lex_leq(a, a),
    decreases a.len(),
{
    if a.len() > 0 {
        lemma_lex_refl(a.drop_first());
    }
}

/// The order is total: of any two sequences, one precedes the other.
pub proof fn lemma_lex_total(a: Seq<char>, b: Seq<char>)
    ensures
        lex_leq(a, b) || lex_leq(b, a),
    decreases a.len(),
{
    if a.len() == 0 {
    } else if b.len() == 0 {
    } else if (a[0] as int) == (b[0] as int) {
        lemma_lex_total(a.drop_first(), b.drop_first());
    }
}

/// The order is transitive.
pub proof fn lemma_lex_trans(a: Seq<char>, b: Seq<char>, c: Seq<char>)
    requires
        lex_leq(a, b),
        lex_leq(b, c),
    ensures
        lex_leq(a, c),
    decreases a.len(),
{
    if a.len() == 0 {
    } else {
        assert(b.len() > 0);
        assert(c.len() > 0);
        if (a[0] as int) < (b[0] as int) {
            assert((b[0] as int) <= (c[0] as int));
        } else {
            assert((a[0] as int) == (b[0] as int));
            if (b[0] as int) == (c[0] as int) {
                lemma_lex_trans(a.drop_first(), b.drop_first(), c.drop_first());
            }
        }
    }
}

/// Executable lexicographic comparison of two string slices, matching
/// `lex_leq` on their character views.
pub fn str_leq(a: &str, b: &str) -> (r: bool)
    ensures
        r == lex_leq(a@, b@),
{
    let alen = a.unicode_len();
    let blen = b.unicode_len();
    let mut i: usize = 0;
    proof {
        assert(a@.skip(0) =~= a@);
        assert(b@.skip(0) =~= b@);
    }
    loop
        invariant
            i <= alen,
            i <= blen,
            alen == a@.len(),
            blen == b@.len(),
            lex_leq(a@, b@) == lex_leq(a@.skip(i as int), b@.skip(i as int)),
        decreases alen - i,
    {
        if i >= alen {
            proof {
                assert(a@.skip(i as int) =~= Seq::<char>::empty());
            }
            return true;
        }
        if i >= blen {
            proof {
                assert(b@.skip(i as int) =~= Seq::<char>::empty());
                assert(a@.skip(i as int).len() > 0);
            }
            return false;
        }
        let ca = a.get_char(i);
        let cb = b.get_char(i);
        proof {
            assert(a@.skip(i as int)[0] == a@[i as int]);
            assert(b@.skip(i as int)[0] == b@[i as int]);
        }
        if (ca as u32) < (cb as u32) {
            return true;
        }
        if (cb as u32) < (ca as u32) {
            return false;
        }
        proof {
            assert(a@.skip(i as int).drop_first() =~= a@.skip(i as int + 1));
            assert(b@.skip(i as int).drop_first() =~= b@.skip(i as int + 1));
        }
        i = i + 1;
    }
}

} // verus!
