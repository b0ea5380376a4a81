use vstd::prelude::*;

verus! {

/// Code-point lexicographic order on texts: the order of `String`'s `Ord`,
/// which compares the UTF-8 bytes.
pub open spec fn text_lt(a: Seq<char>, b: Seq<char>) -> bool
    decreases a.len(),
{
    if a.len() == 0 {
        b.len() > 0
    } else if b.len() == 0 {
        false
    } else if a[0] != b[0] {
        a[0] < b[0]
    } else {
        text_lt(a.drop_first(), b.drop_first())
    }
}

pub proof fn lemma_text_lt_irreflexive(a: Seq<char>)
    ensures
        !text_lt(a, a),
    decreases a.len(),
{
    if a.len() > 0 {
        lemma_text_lt_irreflexive(a.drop_first());
    }
}

pub proof fn lemma_text_lt_asymmetric(a: Seq<char>, b: Seq<char>)
    ensures
        !(text_lt(a, b) && text_lt(b, a)),
    decreases a.len(),
{
    if a.len() > 0 && b.len() > 0 && a[0] == b[0] {
        lemma_text_lt_asymmetric(a.drop_first(), b.drop_first());
    }
}

pub proof fn lemma_text_lt_transitive(a: Seq<char>, b: Seq<char>, c: Seq<char>)
    requires
        text_lt(a, b),
        text_lt(b, c),
    ensures
        text_lt(a, c),
    decreases a.len(),
{
    if a.len() > 0 && b.len() > 0 && c.len() > 0 && a[0] == b[0] && b[0] == c[0] {
        lemma_text_lt_transitive(a.drop_first(), b.drop_first(), c.drop_first());
    }
}

pub proof fn lemma_text_lt_total(a: Seq<char>, b: Seq<char>)
    requires
        a != b,
    ensures
        text_lt(a, b) || text_lt(b, a),
    decreases a.len(),
{
    if a.len() > 0 && b.len() > 0 {
        if a[0] == b[0] {
            assert(a.drop_first() != b.drop_first()) by {
                if a.drop_first() == b.drop_first() {
                    assert(a =~= seq![a[0]] + a.drop_first());
                    assert(b =~= seq![b[0]] + b.drop_first());
                }
            }
            lemma_text_lt_total(a.drop_first(), b.drop_first());
        }
    } else if a.len() == 0 && b.len() == 0 {
        assert(a =~= b);
    }
}

/// The outcome of comparing two texts.
#[derive(Debug, Clone, Copy, PartialEq, Eq, Structural)]
pub enum TextOrder {
    Less,
    Equal,
    Greater,
}

/// Compares two texts character by character.
pub fn compare_text(a: &str, b: &str) -> (r: TextOrder)
    ensures
        r == TextOrder::Less <==> text_lt(a@, b@),
        r == TextOrder::Equal <==> a@ == b@,
        r == TextOrder::Greater <==> text_lt(b@, a@),
{
    proof {
        lemma_text_lt_irreflexive(a@);
        lemma_text_lt_asymmetric(a@, b@);
    }
    let la = a.unicode_len();
    let lb = b.unicode_len();
    let mut i: usize = 0;
    proof {
        assert(a@.skip(0) =~= a@);
        assert(b@.skip(0) =~= b@);
    }
    while i < la && i < lb
        invariant
            la == a@.len(),
            lb == b@.len(),
            i <= la,
            i <= lb,
            a@.subrange(0, i as int) == b@.subrange(0, i as int),
            text_lt(a@, b@) == text_lt(a@.skip(i as int), b@.skip(i as int)),
            text_lt(b@, a@) == text_lt(b@.skip(i as int), a@.skip(i as int)),
        decreases la - i,
    {
        let ca = a.get_char(i);
        let cb = b.get_char(i);
        if ca != cb {
            proof {
                assert(a@.skip(i as int)[0] == ca);
                assert(b@.skip(i as int)[0] == cb);
            }
            if ca < cb {
                return TextOrder::Less;
            } else {
                return TextOrder::Greater;
            }
        }
        proof {
            assert(a@.skip(i as int).drop_first() =~= a@.skip(i + 1));
            assert(b@.skip(i as int).drop_first() =~= b@.skip(i + 1));
            assert(a@.subrange(0, i + 1) =~= a@.subrange(0, i as int).push(ca));
            assert(b@.subrange(0, i + 1) =~= b@.subrange(0, i as int).push(cb));
        }
        i = i + 1;
    }
    if i < lb {
        proof {
            assert(a@ =~= a@.subrange(0, i as int));
            assert(a@.skip(i as int).len() == 0);
        }
        TextOrder::Less
    } else if i < la {
        proof {
            assert(b@ =~= b@.subrange(0, i as int));
            assert(b@.skip(i as int).len() == 0);
        }
        TextOrder::Greater
    } else {
        proof {
            assert(a@ =~= a@.subrange(0, i as int));
            assert(b@ =~= b@.subrange(0, i as int));
        }
        TextOrder::Equal
    }
}

/// Whether two texts hold the same characters.
pub fn same_text(a: &str, b: &str) -> (r: bool)
    ensures
        r == (a@ == b@),
{
    compare_text(a, b) == TextOrder::Equal
}

} // verus!
