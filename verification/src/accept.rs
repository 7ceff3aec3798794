//! The `Accept` header: a list of media types with quality weights,
//! parsed, cleaned of unknown entries, and ordered by weight.
use vstd::multiset::Multiset;
use vstd::prelude::*;

use crate::mime::Mime;
use crate::mime::mime_from_spec;
use crate::mime::mime_matches_spec;
use crate::mime::SubType;
use crate::mime::Type;
use crate::qvalue::parse_qpart;
use crate::qvalue::qpart_val;
use crate::qvalue::DEFAULT_Q;
use crate::strutil::chars_of;
use crate::strutil::find_char;
use crate::strutil::first_index;
use crate::strutil::lemma_first_index;
use crate::strutil::lemma_first_index_unique;
use crate::strutil::split_spec;
use crate::strutil::trim;
use crate::strutil::trim_spec;

verus! {

/// One entry of an `Accept` header: a media type and its weight in
/// thousandths.
#[derive(Debug, Clone, Copy, PartialEq, Eq, Structural)]
pub struct MimeItem {
    pub mime: Mime,
    pub q: u32,
}

/// The item denoted by one comma-separated part: the text before a `;` names
/// the media type, the text after it may carry a `q=` weight.
pub open spec fn item_from_spec(s: Seq<char>) -> MimeItem {
    let i = first_index(s, ';');
    if i < s.len() {
        MimeItem {
            mime: mime_from_spec(trim_spec(s.subrange(0, i))),
            q: qpart_val(trim_spec(s.subrange(i + 1, s.len() as int))) as u32,
        }
    } else {
        MimeItem { mime: mime_from_spec(s), q: DEFAULT_Q }
    }
}

/// An item stays in the list only when both components are known.
pub open spec fn item_kept(it: MimeItem) -> bool {
    it.mime.typ != Type::Unknown && it.mime.sub != SubType::Unknown
}

/// The kept items of a list of header parts, in header order.
pub open spec fn kept_items(parts: Seq<Seq<char>>) -> Seq<MimeItem>
    decreases parts.len(),
{
    if parts.len() == 0 {
        Seq::<MimeItem>::empty()
    } else {
        let rest = kept_items(parts.drop_last());
        let it = item_from_spec(trim_spec(parts.last()));
        if item_kept(it) {
            rest.push(it)
        } else {
            rest
        }
    }
}

/// The kept items of a whole `Accept` header value, in header order.
pub open spec fn accept_items_spec(s: Seq<char>) -> Seq<MimeItem> {
    kept_items(split_spec(s, ','))
}

/// Non-increasing order of weights.
pub open spec fn sorted_by_q(s: Seq<MimeItem>) -> bool {
    forall|i: int, j: int| 0 <= i < j < s.len() ==> s[i].q >= s[j].q
}

/// The items of one weight, in order: sorting is stable, so these
/// subsequences carry over from the header unchanged.
pub open spec fn items_with_q(s: Seq<MimeItem>, w: u32) -> Seq<MimeItem>
    decreases s.len(),
{
    if s.len() == 0 {
        Seq::<MimeItem>::empty()
    } else {
        let rest = items_with_q(s.drop_last(), w);
        if s.last().q == w {
            rest.push(s.last())
        } else {
            rest
        }
    }
}

proof fn lemma_items_with_q_concat(a: Seq<MimeItem>, b: Seq<MimeItem>, w: u32)
    ensures
        items_with_q(a + b, w) == items_with_q(a, w) + items_with_q(b, w),
    decreases b.len(),
{
    if b.len() == 0 {
        assert(a + b =~= a);
        assert(items_with_q(a, w) + items_with_q(b, w) =~= items_with_q(a, w));
    } else {
        lemma_items_with_q_concat(a, b.drop_last(), w);
        assert((a + b).drop_last() =~= a + b.drop_last());
        assert((a + b).last() == b.last());
        if b.last().q == w {
            assert(items_with_q(a, w) + items_with_q(b.drop_last(), w).push(b.last())
                =~= (items_with_q(a, w) + items_with_q(b.drop_last(), w)).push(b.last()));
        }
    }
}

proof fn lemma_items_with_q_absent(s: Seq<MimeItem>, w: u32)
    requires
        forall|k: int| 0 <= k < s.len() ==> s[k].q != w,
    ensures
        items_with_q(s, w) == Seq::<MimeItem>::empty(),
    decreases s.len(),
{
    if s.len() > 0 {
        lemma_items_with_q_absent(s.drop_last(), w);
    }
}

/// A parsed `Accept` header: items with known media types, ordered by
/// weight, heaviest first.
#[derive(Debug, Clone)]
pub struct Accept(pub Vec<MimeItem>);

/// Parse one comma-separated part into an item.
pub fn parse_item(part: &[char]) -> (r: MimeItem)
    ensures
        r == item_from_spec(part@),
{
    let semi = find_char(part, 0, ';');
    proof {
        lemma_first_index(part@, ';');
        if semi < part@.len() {
            lemma_first_index_unique(part@, ';', semi as int);
        } else {
            lemma_first_index_unique(part@, ';', part@.len() as int);
        }
    }
    if semi == part.len() {
        MimeItem { mime: Mime::from_chars(part), q: DEFAULT_Q }
    } else {
        let mut name: Vec<char> = Vec::new();
        let mut i: usize = 0;
        while i < semi
            invariant
                i <= semi <= part@.len(),
                name@ == part@.subrange(0, i as int),
            decreases semi - i,
        {
            name.push(part[i]);
            i = i + 1;
            proof {
                assert(name@ =~= part@.subrange(0, i as int));
            }
        }
        let mut qp: Vec<char> = Vec::new();
        let mut j: usize = semi + 1;
        while j < part.len()
            invariant
                semi + 1 <= j <= part@.len(),
                qp@ == part@.subrange(semi + 1, j as int),
            decreases part@.len() - j,
        {
            qp.push(part[j]);
            j = j + 1;
            proof {
                assert(qp@ =~= part@.subrange(semi + 1, j as int));
            }
        }
        let name_t = trim(name.as_slice());
        let qp_t = trim(qp.as_slice());
        MimeItem { mime: Mime::from_chars(name_t.as_slice()), q: parse_qpart(qp_t.as_slice()) }
    }
}

/// Insert an item into a weight-ordered vector, after every item of equal
/// or greater weight.
fn insert_sorted(v: &mut Vec<MimeItem>, x: MimeItem)
    requires
        sorted_by_q(old(v)@),
    ensures
        sorted_by_q(final(v)@),
        final(v)@.to_multiset() == old(v)@.to_multiset().insert(x),
        forall|w: u32| #[trigger] items_with_q(final(v)@, w) == if w == x.q {
            items_with_q(old(v)@, w).push(x)
        } else {
            items_with_q(old(v)@, w)
        },
{
    let mut j: usize = v.len();
    while j > 0 && v[j - 1].q < x.q
        invariant
            j <= v@.len(),
            sorted_by_q(v@),
            forall|k: int| j <= k < v@.len() ==> v@[k].q < x.q,
        decreases j,
    {
        j = j - 1;
    }
    let ghost before = v@;
    v.insert(j, x);
    proof {
        assert(v@ =~= before.subrange(0, j as int) + seq![x] + before.subrange(
            j as int,
            before.len() as int,
        ));
        lemma_insert_multiset(before, j as int, x);
        let front = before.subrange(0, j as int);
        let back = before.subrange(j as int, before.len() as int);
        assert forall|w: u32| #[trigger] items_with_q(v@, w) == (if w == x.q {
            items_with_q(before, w).push(x)
        } else {
            items_with_q(before, w)
        }) by {
            lemma_items_with_q_concat(front + seq![x], back, w);
            lemma_items_with_q_concat(front, seq![x], w);
            lemma_items_with_q_concat(front, back, w);
            assert(front + back =~= before);
            assert(seq![x].len() == 1);
            assert(seq![x].last() == x);
            assert(seq![x].drop_last() =~= Seq::<MimeItem>::empty());
            assert(items_with_q(Seq::<MimeItem>::empty(), w) == Seq::<MimeItem>::empty());
            if w == x.q {
                lemma_items_with_q_absent(back, w);
                assert(items_with_q(seq![x], w) =~= seq![x]);
                assert(items_with_q(v@, w) =~= items_with_q(before, w).push(x));
            } else {
                assert(items_with_q(seq![x], w) =~= Seq::<MimeItem>::empty());
                assert(items_with_q(v@, w) =~= items_with_q(before, w));
            }
        }
        assert forall|a: int, b: int| 0 <= a < b < v@.len() implies v@[a].q >= v@[b].q by {
            if a < j && b == j {
                assert(v@[a] == before[a]);
            } else if a == j && b > j {
                assert(v@[b] == before[b - 1]);
            } else if a < j && b > j {
                assert(v@[a] == before[a]);
                assert(v@[b] == before[b - 1]);
            } else if a > j && b > j {
                assert(v@[a] == before[a - 1]);
                assert(v@[b] == before[b - 1]);
            }
        }
    }
}

/// A sequence with an element put in holds the old elements and that one.
pub proof fn lemma_insert_multiset<A>(s: Seq<A>, j: int, x: A)
    requires
        0 <= j <= s.len(),
    ensures
        (s.subrange(0, j) + seq![x] + s.subrange(j, s.len() as int)).to_multiset()
            == s.to_multiset().insert(x),
{
    broadcast use vstd::seq_lib::group_seq_lib_default;
    broadcast use vstd::seq_lib::group_to_multiset_ensures;
    broadcast use vstd::seq_lib::lemma_multiset_commutative;
    broadcast use vstd::multiset::group_multiset_axioms;

    assert(seq![x] =~= Seq::<A>::empty().push(x));
    assert(Seq::<A>::empty().push(x).to_multiset() =~= Seq::<A>::empty().to_multiset().insert(x));
    assert(Seq::<A>::empty().to_multiset().len() == 0);
    assert(Seq::<A>::empty().to_multiset() =~= Multiset::<A>::empty());
    let a = s.subrange(0, j);
    let b = s.subrange(j, s.len() as int);
    assert((a + seq![x] + b).to_multiset() =~= a.to_multiset().add(
        seq![x].to_multiset(),
    ).add(b.to_multiset()));
    assert(seq![x].to_multiset() =~= Multiset::<A>::empty().insert(x));
    assert(a + b =~= s);
    assert((a + b).to_multiset() =~= a.to_multiset().add(b.to_multiset()));
    assert((a + seq![x] + b).to_multiset() =~= s.to_multiset().insert(x));
}

impl Accept {
    /// Parse an `Accept` header value: comma-separated items, unknown media
    /// types dropped, ordered by weight non-increasing.
    pub fn from(v: &str) -> (r: Accept)
        ensures
            sorted_by_q(r.0@),
            r.0@.to_multiset() == accept_items_spec(v@).to_multiset(),
            forall|w: u32| #[trigger] items_with_q(r.0@, w) == items_with_q(
                accept_items_spec(v@),
                w,
            ),
    {
        let cs = chars_of(v);
        let parts = crate::strutil::split(cs.as_slice(), ',');
        let ghost sparts = split_spec(v@, ',');
        let mut out: Vec<MimeItem> = Vec::new();
        let mut i: usize = 0;
        proof {
            assert(kept_items(sparts.subrange(0, 0)) =~= Seq::<MimeItem>::empty());
            assert(out@.to_multiset() =~= kept_items(sparts.subrange(0, 0)).to_multiset());
            assert(out@ =~= kept_items(sparts.subrange(0, 0)));
        }
        while i < parts.len()
            invariant
                i <= parts@.len(),
                crate::strutil::views_of(parts@) == sparts,
                sorted_by_q(out@),
                out@.to_multiset() == kept_items(sparts.subrange(0, i as int)).to_multiset(),
                forall|w: u32| #[trigger] items_with_q(out@, w) == items_with_q(
                    kept_items(sparts.subrange(0, i as int)),
                    w,
                ),
            decreases parts@.len() - i,
        {
            let part = trim(parts[i].as_slice());
            let it = parse_item(part.as_slice());
            proof {
                assert(parts@[i as int]@ == sparts[i as int]);
                let pre = sparts.subrange(0, i as int);
                let cur = sparts.subrange(0, i + 1);
                assert(cur.drop_last() =~= pre);
                assert(cur.last() == sparts[i as int]);
                broadcast use vstd::seq_lib::group_to_multiset_ensures;

            }
            if it.mime.typ.is_none() || matches!(it.mime.sub, SubType::Unknown) {
                proof {
                    assert(!item_kept(it));
                }
            } else {
                insert_sorted(&mut out, it);
                proof {
                    broadcast use vstd::seq_lib::group_to_multiset_ensures;

                    let pre = sparts.subrange(0, i as int);
                    let pk = kept_items(pre);
                    let ck = kept_items(sparts.subrange(0, i + 1));
                    assert(ck.to_multiset() =~= pk.to_multiset().insert(it));
                    assert(ck == pk.push(it));
                    assert forall|w: u32| #[trigger] items_with_q(out@, w) == items_with_q(
                        ck,
                        w,
                    ) by {
                        assert(ck.drop_last() =~= pk);
                        assert(ck.last() == it);
                    }
                }
            }
            i = i + 1;
        }
        proof {
            assert(sparts.subrange(0, sparts.len() as int) =~= sparts);
        }
        Accept(out)
    }

    /// Whether the list is non-empty.
    pub fn empty(&self) -> (r: bool)
        ensures
            r == (self.0@.len() > 0),
    {
        self.0.len() > 0
    }

    /// Whether any item of the list matches the given media type.
    pub fn has(&self, mime: Mime) -> (r: bool)
        ensures
            r == exists|i: int|
                0 <= i < self.0@.len() && mime_matches_spec(self.0@[i].mime, mime),
    {
        let mut i: usize = 0;
        while i < self.0.len()
            invariant
                i <= self.0@.len(),
                forall|j: int| 0 <= j < i ==> !mime_matches_spec(self.0@[j].mime, mime),
            decreases self.0@.len() - i,
        {
            if self.0[i].mime.matches(&mime) {
                return true;
            }
            i = i + 1;
        }
        false
    }

    /// The number of items.
    pub fn len(&self) -> (r: usize)
        ensures
            r == self.0@.len(),
    {
        self.0.len()
    }

    /// The item at an index, heaviest weights first.
    pub fn get(&self, i: usize) -> (r: &MimeItem)
        requires
            i < self.0@.len(),
        ensures
            *r == self.0@[i as int],
    {
        &self.0[i]
    }
}

} // verus!
