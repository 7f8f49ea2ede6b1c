use vstd::prelude::*;

use crate::text::{
    concat2, lemma_lex_lt_irreflexive, lemma_lex_lt_total, lemma_lex_lt_transitive, lex_lt, str_lt,
};

verus! {

#[derive(Clone, Copy, Debug, PartialEq, Eq, Structural)]
pub enum CardType {
    Pokemon,
    Trainer,
}

/// One entry of the card catalog offered to the deck builder.
pub struct CardCatalogEntry {
    /// "SET NUMBER", e.g. "A1 001", as deck text writes it.
    pub id: String,
    pub name: String,
    pub card_type: CardType,
    /// Whether the card counts toward a deck's "at least one Basic Pokemon" rule.
    pub is_basic: bool,
    /// Whether the engine implements the card completely (decks may only hold such cards).
    pub implemented: bool,
    /// The card's art, when a host for card art is configured.
    pub image_url: Option<String>,
}

/// `s` with every space replaced by a hyphen.
pub open spec fn spaces_to_hyphens(s: Seq<char>) -> Seq<char> {
    s.map_values(|c: char| if c == ' ' { '-' } else { c })
}

/// The address of a card's art: `{base_url}/{id}.png`, with the id's spaces written as
/// hyphens.
pub open spec fn spec_card_image_url(base_url: Seq<char>, id: Seq<char>) -> Seq<char> {
    base_url + "/"@ + spaces_to_hyphens(id) + ".png"@
}

/// See `spec_card_image_url`.
pub fn card_image_url(base_url: &str, id: &str) -> (r: String)
    ensures
        r@ == spec_card_image_url(base_url@, id@),
{
    let mut r = concat2(base_url, "/");
    let ghost prefix = r@;
    let n = id.unicode_len();
    let mut i: usize = 0;
    while i < n
        invariant
            n == id@.len(),
            i <= n,
            r@ == prefix + spaces_to_hyphens(id@.subrange(0, i as int)),
        decreases n - i,
    {
        let c = id.get_char(i);
        proof {
            assert(spaces_to_hyphens(id@.subrange(0, i + 1)) =~= spaces_to_hyphens(
                id@.subrange(0, i as int),
            ).push(if c == ' ' {
                '-'
            } else {
                c
            }));
        }
        if c == ' ' {
            r.append("-");
            proof {
                reveal_strlit("-");
            }
        } else {
            let one = id.substring_char(i, i + 1);
            r.append(one);
            assert(one@ =~= seq![c]);
        }
        assert(r@ =~= prefix + spaces_to_hyphens(id@.subrange(0, i + 1)));
        i = i + 1;
    }
    assert(id@.subrange(0, n as int) =~= id@);
    r.append(".png");
    r
}

/// A card's art lives at `{base_url}/{name}.png`, where the name is the id character for
/// character, each space written as a hyphen and every other character kept.
pub proof fn lemma_card_image_url_shape(base_url: Seq<char>, id: Seq<char>)
    ensures
        ({
            let u = spec_card_image_url(base_url, id);
            let name = u.subrange(base_url.len() + 1int, u.len() - 4);
            &&& u.len() == base_url.len() + id.len() + 5
            &&& u.subrange(0, base_url.len() as int) == base_url
            &&& u[base_url.len() as int] == '/'
            &&& u.subrange(u.len() - 4, u.len() as int) == ".png"@
            &&& name.len() == id.len()
            &&& forall|i: int| 0 <= i < id.len() ==> #[trigger] name[i] == if id[i] == ' ' {
                '-'
            } else {
                id[i]
            }
        }),
{
    reveal_strlit("/");
    reveal_strlit(".png");
    let u = spec_card_image_url(base_url, id);
    let h = spaces_to_hyphens(id);
    assert(u =~= base_url + seq!['/'] + h + ".png"@);
    assert(u.subrange(0, base_url.len() as int) =~= base_url);
    assert(u.subrange(u.len() - 4, u.len() as int) =~= ".png"@);
    assert(u.subrange(base_url.len() + 1int, u.len() - 4) =~= h);
}

/// The address of a card's art, when a host for card art is configured.
pub fn catalog_image_url(base_url: &Option<String>, id: &str) -> (r: Option<String>)
    ensures
        match base_url {
            Some(b) => r matches Some(u) && u@ == spec_card_image_url(b@, id@),
            None => r is None,
        },
{
    match base_url {
        Some(b) => Some(card_image_url(b.as_str(), id)),
        None => None,
    }
}

/// Ordered by id: no entry's id comes before that of an entry ahead of it.
pub open spec fn sorted_by_id(s: Seq<CardCatalogEntry>) -> bool {
    forall|i: int, j: int| 0 <= i < j < s.len() ==> !lex_lt(#[trigger] s[j].id@, #[trigger] s[i].id@)
}

/// Whether an entry carries the id `k`.
pub open spec fn with_id(k: Seq<char>) -> spec_fn(CardCatalogEntry) -> bool {
    |e: CardCatalogEntry| e.id@ == k
}

/// `x` alone when it carries the id `k`; nothing otherwise.
pub open spec fn only_with_id(x: CardCatalogEntry, k: Seq<char>) -> Seq<CardCatalogEntry> {
    if x.id@ == k {
        seq![x]
    } else {
        Seq::empty()
    }
}

proof fn lemma_filter_singleton(x: CardCatalogEntry, k: Seq<char>)
    ensures
        seq![x].filter(with_id(k)) == only_with_id(x, k),
{
    let e = Seq::<CardCatalogEntry>::empty();
    e.lemma_filter_len(with_id(k));
    e.lemma_filter_push(x, with_id(k));
    assert(seq![x] =~= e.push(x));
    assert(e.filter(with_id(k)) =~= e);
}

proof fn lemma_filter_empty(s: Seq<CardCatalogEntry>, k: Seq<char>)
    requires
        forall|j: int| 0 <= j < s.len() ==> #[trigger] s[j].id@ != k,
    ensures
        s.filter(with_id(k)) == Seq::<CardCatalogEntry>::empty(),
{
    let f = s.filter(with_id(k));
    if f.len() > 0 {
        s.lemma_filter_pred(with_id(k), 0);
        assert(f.contains(f[0]));
        s.lemma_filter_contains_rev(with_id(k), f[0]);
        let j = choose|j: int| 0 <= j < s.len() && s[j] == f[0];
        assert(s[j].id@ == k);
    }
    assert(f =~= Seq::<CardCatalogEntry>::empty());
}

/// Puts `x` after every entry whose id does not come after its own.
fn insert_by_id(v: &mut Vec<CardCatalogEntry>, x: CardCatalogEntry)
    requires
        sorted_by_id(old(v)@),
    ensures
        sorted_by_id(final(v)@),
        final(v)@.to_multiset() == old(v)@.to_multiset().insert(x),
        forall|k: Seq<char>| #[trigger] final(v)@.filter(with_id(k)) == old(v)@.filter(with_id(k)) + only_with_id(x, k),
{
    let n = v.len();
    let mut p: usize = 0;
    while p < n
        invariant_except_break
            n == v.len(),
            v@ == old(v)@,
            p <= n,
            forall|j: int| 0 <= j < p ==> !lex_lt(x.id@, #[trigger] v@[j].id@),
        ensures
            n == v.len(),
            v@ == old(v)@,
            p <= n,
            forall|j: int| 0 <= j < p ==> !lex_lt(x.id@, #[trigger] v@[j].id@),
            p < n ==> lex_lt(x.id@, v@[p as int].id@),
        decreases n - p,
    {
        if str_lt(x.id.as_str(), v[p].id.as_str()) {
            break;
        }
        p = p + 1;
    }
    let ghost before = v@;
    let ghost xv = x;
    v.insert(p, x);
    proof {
        broadcast use vstd::seq_lib::to_multiset_insert;

        let after = v@;
        assert(after =~= before.insert(p as int, xv));
        assert forall|i: int, j: int| 0 <= i < j < after.len() implies !lex_lt(
            #[trigger] after[j].id@,
            #[trigger] after[i].id@,
        ) by {
            if j < p {
                assert(after[i] == before[i] && after[j] == before[j]);
            } else if j == p {
                assert(after[i] == before[i]);
            } else if i == p {
                assert(after[j] == before[j - 1]);
                assert(after[i] == xv);
                assert(p < n);
                let q = before[p as int].id@;
                let y = before[j - 1].id@;
                if j - 1 > p {
                    assert(!lex_lt(y, q));
                    lemma_lex_lt_total(q, y);
                    if q != y {
                        lemma_lex_lt_transitive(xv.id@, q, y);
                    }
                }
                lemma_lex_lt_total(xv.id@, y);
            } else if i < p {
                assert(after[i] == before[i] && after[j] == before[j - 1]);
            } else {
                assert(after[i] == before[i - 1] && after[j] == before[j - 1]);
            }
        }
        // Every entry from `p` on has an id after `x`'s.
        assert forall|j: int| p <= j < before.len() implies lex_lt(xv.id@, #[trigger] before[j].id@) by {
            let q = before[p as int].id@;
            if j > p {
                lemma_lex_lt_total(q, before[j].id@);
                if q != before[j].id@ {
                    lemma_lex_lt_transitive(xv.id@, q, before[j].id@);
                }
            }
        }
        let head = before.take(p as int);
        let tail = before.skip(p as int);
        assert(after =~= head + seq![xv] + tail);
        assert(before =~= head + tail);
        assert forall|k: Seq<char>| #[trigger] after.filter(with_id(k)) == before.filter(with_id(k))
            + only_with_id(xv, k) by {
            Seq::filter_distributes_over_add(head + seq![xv], tail, with_id(k));
            Seq::filter_distributes_over_add(head, seq![xv], with_id(k));
            Seq::filter_distributes_over_add(head, tail, with_id(k));
            lemma_filter_singleton(xv, k);
            if xv.id@ == k {
                assert forall|j: int| 0 <= j < tail.len() implies #[trigger] tail[j].id@ != k by {
                    assert(tail[j] == before[p + j]);
                    lemma_lex_lt_irreflexive(k);
                }
                lemma_filter_empty(tail, k);
                assert(after.filter(with_id(k)) =~= before.filter(with_id(k)) + only_with_id(xv, k));
            } else {
                assert(after.filter(with_id(k)) =~= before.filter(with_id(k)) + only_with_id(xv, k));
            }
        }
    }
}

/// The catalog ordered by card id, as `String`'s order compares them; the same entries,
/// those sharing an id kept in their order (a stable sort).
pub fn sort_catalog_by_id(entries: Vec<CardCatalogEntry>) -> (r: Vec<CardCatalogEntry>)
    ensures
        sorted_by_id(r@),
        r@.to_multiset() == entries@.to_multiset(),
        forall|k: Seq<char>| #[trigger] r@.filter(with_id(k)) == entries@.filter(with_id(k)),
{
    let mut rest = entries;
    let mut r: Vec<CardCatalogEntry> = Vec::new();
    proof {
        broadcast use vstd::seq_lib::group_to_multiset_ensures;
        broadcast use vstd::multiset::group_multiset_axioms;

        vstd::multiset::lemma_multiset_empty_len(r@.to_multiset());
        assert(r@.to_multiset().add(rest@.to_multiset()) =~= rest@.to_multiset());
        assert forall|k: Seq<char>| #[trigger] entries@.filter(with_id(k)) == r@.filter(with_id(k))
            + rest@.filter(with_id(k)) by {
            lemma_filter_empty(r@, k);
            assert(r@.filter(with_id(k)) + rest@.filter(with_id(k)) =~= rest@.filter(with_id(k)));
        }
    }
    while rest.len() > 0
        invariant
            sorted_by_id(r@),
            r@.to_multiset().add(rest@.to_multiset()) == entries@.to_multiset(),
            forall|k: Seq<char>| #[trigger] entries@.filter(with_id(k)) == r@.filter(with_id(k)) + rest@.filter(with_id(k)),
        decreases rest.len(),
    {
        let ghost before = rest@;
        let x = rest.remove(0);
        proof {
            broadcast use vstd::seq_lib::to_multiset_remove;
            broadcast use vstd::multiset::group_multiset_axioms;

            assert(rest@.to_multiset() == before.to_multiset().remove(x));
            assert(before.to_multiset().count(x) > 0) by {
                broadcast use vstd::seq_lib::to_multiset_contains;

                assert(before.contains(x));
            }
        }
        let ghost r_before = r@;
        insert_by_id(&mut r, x);
        proof {
            broadcast use vstd::multiset::group_multiset_axioms;

            assert(r@.to_multiset().add(rest@.to_multiset()) =~= r_before.to_multiset().add(
                before.to_multiset(),
            ));
            assert(before =~= seq![x] + rest@);
            assert forall|k: Seq<char>| #[trigger] entries@.filter(with_id(k)) == r@.filter(with_id(k))
                + rest@.filter(with_id(k)) by {
                Seq::filter_distributes_over_add(seq![x], rest@, with_id(k));
                lemma_filter_singleton(x, k);
                assert(entries@.filter(with_id(k)) == r_before.filter(with_id(k)) + before.filter(
                    with_id(k),
                ));
                assert(r@.filter(with_id(k)) + rest@.filter(with_id(k)) =~= r_before.filter(
                    with_id(k),
                ) + before.filter(with_id(k)));
            }
        }
    }
    proof {
        broadcast use vstd::multiset::group_multiset_axioms;

        broadcast use vstd::seq_lib::group_to_multiset_ensures;

        vstd::multiset::lemma_multiset_empty_len(rest@.to_multiset());
        assert(r@.to_multiset().add(rest@.to_multiset()) =~= r@.to_multiset());
        assert forall|k: Seq<char>| #[trigger] r@.filter(with_id(k)) == entries@.filter(with_id(k)) by {
            lemma_filter_empty(rest@, k);
            assert(r@.filter(with_id(k)) + rest@.filter(with_id(k)) =~= r@.filter(with_id(k)));
        }
    }
    r
}

} // verus!
