//! Choosing the DRM device nodes to scan: `card<N>` entries of the device
//! directory, in name order.
use vstd::prelude::*;
use vstd::seq_lib::{to_multiset_build, to_multiset_insert};

use crate::error::RresError;
use crate::text::{is_prefix, starts_with, views};

verus! {

/// Whether `name` is the name of a card device node.
pub open spec fn is_card_name(name: Seq<char>) -> bool {
    is_prefix("card"@, name)
}

/// Lexicographic order on character sequences.
pub open spec fn lex_le(a: Seq<char>, b: Seq<char>) -> bool
    decreases a.len(),
{
    if a.len() == 0 {
        true
    } else if b.len() == 0 {
        false
    } else if a[0] != b[0] {
        a[0] < b[0]
    } else {
        lex_le(a.drop_first(), b.drop_first())
    }
}

/// Whether `s` is in ascending lexicographic order.
pub open spec fn sorted(s: Seq<Seq<char>>) -> bool {
    forall|a: int, b: int| 0 <= a < b < s.len() ==> lex_le(#[trigger] s[a], #[trigger] s[b])
}

/// The card names among `names`, in their order.
pub open spec fn card_entries(names: Seq<Seq<char>>) -> Seq<Seq<char>>
    decreases names.len(),
{
    if names.len() == 0 {
        seq![]
    } else if is_card_name(names.last()) {
        card_entries(names.drop_last()).push(names.last())
    } else {
        card_entries(names.drop_last())
    }
}

/// Any two sequences are ordered one way or the other.
pub proof fn lemma_lex_total(a: Seq<char>, b: Seq<char>)
    ensures
        lex_le(a, b) || lex_le(b, a),
    decreases a.len(),
{
    if a.len() > 0 && b.len() > 0 && a[0] == b[0] {
        lemma_lex_total(a.drop_first(), b.drop_first());
    }
}

/// The lexicographic order is transitive.
pub proof fn lemma_lex_trans(a: Seq<char>, b: Seq<char>, c: Seq<char>)
    requires
        lex_le(a, b),
        lex_le(b, c),
    ensures
        lex_le(a, c),
    decreases a.len(),
{
    if a.len() > 0 && b.len() > 0 && c.len() > 0 && a[0] == b[0] && b[0] == c[0] {
        lemma_lex_trans(a.drop_first(), b.drop_first(), c.drop_first());
    }
}

/// Whether `a` comes before `b` or equals it, character by character.
pub fn str_lex_le(a: &str, b: &str) -> (r: bool)
    ensures
        r == lex_le(a@, b@),
{
    let na = a.unicode_len();
    let nb = b.unicode_len();
    let mut i: usize = 0;
    assert(a@.subrange(0, na as int) =~= a@);
    assert(b@.subrange(0, nb as int) =~= b@);
    while i < na && i < nb
        invariant
            na == a@.len(),
            nb == b@.len(),
            i <= na,
            i <= nb,
            lex_le(a@, b@) == lex_le(a@.subrange(i as int, na as int), b@.subrange(i as int, nb as int)),
        decreases na - i,
    {
        let ca = a.get_char(i);
        let cb = b.get_char(i);
        let ghost sa = a@.subrange(i as int, na as int);
        let ghost sb = b@.subrange(i as int, nb as int);
        assert(sa[0] == ca && sb[0] == cb);
        if ca != cb {
            return ca < cb;
        }
        assert(sa.drop_first() =~= a@.subrange(i + 1, na as int));
        assert(sb.drop_first() =~= b@.subrange(i + 1, nb as int));
        i = i + 1;
    }
    i == na
}

/// The device node `name` that a caller selected, which must exist under
/// the device directory and be named `card<N>`.
pub fn check_card(name: &str, present: bool) -> (r: Result<String, RresError>)
    ensures
        (present && is_card_name(name@)) ==> (r matches Ok(s) && s@ == name@),
        !(present && is_card_name(name@)) ==> r == Err::<String, RresError>(
            RresError::InvalidDevice,
        ),
{
    if !present || !starts_with(name, "card") {
        return Err(RresError::InvalidDevice);
    }
    Ok(String::from_str(name))
}

/// The card device nodes among the directory entries `entries`, sorted by
/// name: for the conventional names, by ascending device index.
pub fn card_names(entries: &Vec<String>) -> (r: Vec<String>)
    ensures
        sorted(views(r@)),
        views(r@).to_multiset() == card_entries(views(entries@)).to_multiset(),
{
    proof {
        reveal_strlit("card");
    }
    let mut out: Vec<String> = Vec::new();
    let n = entries.len();
    let mut i: usize = 0;
    assert(views(out@) =~= Seq::<Seq<char>>::empty());
    assert(views(entries@).subrange(0, 0) =~= Seq::<Seq<char>>::empty());
    while i < n
        invariant
            n == entries@.len(),
            i <= n,
            sorted(views(out@)),
            views(out@).to_multiset() == card_entries(
                views(entries@).subrange(0, i as int),
            ).to_multiset(),
        decreases n - i,
    {
        let ghost done = views(entries@).subrange(0, i + 1);
        assert(done.drop_last() =~= views(entries@).subrange(0, i as int));
        assert(done.last() == entries@[i as int]@);
        let name = entries[i].as_str();
        assert(done.last() == name@);
        if starts_with(name, "card") {
            let ghost old_views = views(out@);
            let mut p: usize = 0;
            while p < out.len() && str_lex_le(out[p].as_str(), name)
                invariant
                    p <= out@.len(),
                    old_views == views(out@),
                    forall|q: int| 0 <= q < p ==> lex_le(#[trigger] old_views[q], name@),
                decreases out@.len() - p,
            {
                p = p + 1;
            }
            proof {
                if p < old_views.len() {
                    assert(!lex_le(old_views[p as int], name@));
                    lemma_lex_total(old_views[p as int], name@);
                }
                assert forall|a: int, b: int|
                    0 <= a < b < old_views.len() + 1 implies lex_le(
                    #[trigger] old_views.insert(p as int, name@)[a],
                    #[trigger] old_views.insert(p as int, name@)[b],
                ) by {
                    let s = old_views.insert(p as int, name@);
                    if b < p {
                    } else if b == p {
                    } else if a < p {
                        lemma_lex_trans(old_views[a], name@, old_views[p as int]);
                        if b - 1 > p {
                            lemma_lex_trans(old_views[a], old_views[p as int], old_views[b - 1]);
                        }
                    } else if a == p {
                        if b - 1 > p {
                            lemma_lex_trans(name@, old_views[p as int], old_views[b - 1]);
                        }
                    } else {
                    }
                }
                to_multiset_insert(old_views, p as int, name@);
                to_multiset_build(card_entries(views(entries@).subrange(0, i as int)), name@);
            }
            out.insert(p, entries[i].clone());
            assert(views(out@) =~= old_views.insert(p as int, name@));
        }
        i = i + 1;
    }
    assert(views(entries@).subrange(0, n as int) =~= views(entries@));
    out
}

} // verus!
