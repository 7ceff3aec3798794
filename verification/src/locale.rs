//! The `Accept-Language` header: BCP-47 tags with quality weights. A tag
//! splits at its first `-` into a primary name and a region remainder.
use vstd::multiset::Multiset;
use vstd::prelude::*;

use crate::qvalue::parse_qpart;
use crate::qvalue::qpart_val;
use crate::qvalue::DEFAULT_Q;
use crate::strutil::chars_of;
use crate::strutil::find_char;
use crate::strutil::first_index;
use crate::strutil::lemma_first_index;
use crate::strutil::lemma_first_index_unique;
use crate::strutil::split_spec;
use crate::strutil::string_of;
use crate::strutil::trim;
use crate::strutil::trim_spec;

verus! {

/// One language preference: primary subtag, region remainder, and weight in
/// thousandths.
#[derive(Debug, Clone)]
pub struct Locale {
    pub name: String,
    pub region: String,
    pub q: u32,
}

/// The mathematical value of a `Locale`.
pub struct LocaleV {
    pub name: Seq<char>,
    pub region: Seq<char>,
    pub q: int,
}

impl View for Locale {
    type V = LocaleV;

    open spec fn view(&self) -> LocaleV {
        LocaleV { name: self.name@, region: self.region@, q: self.q as int }
    }
}

/// The locale denoted by one comma-separated part: the text before a `;` is
/// the tag, the text after it may carry a `q=` weight; the tag splits at its
/// first `-` into name and region.
pub open spec fn locale_from_spec(s: Seq<char>) -> LocaleV {
    let semi = first_index(s, ';');
    let tag = if semi < s.len() {
        trim_spec(s.subrange(0, semi))
    } else {
        s
    };
    let q = if semi < s.len() {
        qpart_val(trim_spec(s.subrange(semi + 1, s.len() as int)))
    } else {
        DEFAULT_Q as int
    };
    let dash = first_index(tag, '-');
    if dash < tag.len() {
        LocaleV {
            name: tag.subrange(0, dash),
            region: tag.subrange(dash + 1, tag.len() as int),
            q: q,
        }
    } else {
        LocaleV { name: tag, region: Seq::<char>::empty(), q: q }
    }
}

/// The views of a vector of locales.
pub open spec fn locale_views(v: Seq<Locale>) -> Seq<LocaleV> {
    v.map_values(|l: Locale| l@)
}

/// The locales of a list of header parts, in header order.
pub open spec fn locale_items(parts: Seq<Seq<char>>) -> Seq<LocaleV>
    decreases parts.len(),
{
    if parts.len() == 0 {
        Seq::<LocaleV>::empty()
    } else {
        locale_items(parts.drop_last()).push(locale_from_spec(trim_spec(parts.last())))
    }
}

/// The locales of a whole `Accept-Language` header value, in header order.
pub open spec fn locales_spec(s: Seq<char>) -> Seq<LocaleV> {
    locale_items(split_spec(s, ','))
}

/// Non-increasing order of weights.
pub open spec fn locales_sorted(s: Seq<LocaleV>) -> bool {
    forall|i: int, j: int| 0 <= i < j < s.len() ==> s[i].q >= s[j].q
}

/// The locales of one weight, in order: sorting is stable, so these
/// subsequences carry over from the header unchanged.
pub open spec fn locales_with_q(s: Seq<LocaleV>, w: int) -> Seq<LocaleV>
    decreases s.len(),
{
    if s.len() == 0 {
        Seq::<LocaleV>::empty()
    } else {
        let rest = locales_with_q(s.drop_last(), w);
        if s.last().q == w {
            rest.push(s.last())
        } else {
            rest
        }
    }
}

proof fn lemma_locales_with_q_concat(a: Seq<LocaleV>, b: Seq<LocaleV>, w: int)
    ensures
        locales_with_q(a + b, w) == locales_with_q(a, w) + locales_with_q(b, w),
    decreases b.len(),
{
    if b.len() == 0 {
        assert(a + b =~= a);
        assert(locales_with_q(a, w) + locales_with_q(b, w) =~= locales_with_q(a, w));
    } else {
        lemma_locales_with_q_concat(a, b.drop_last(), w);
        assert((a + b).drop_last() =~= a + b.drop_last());
        assert((a + b).last() == b.last());
        if b.last().q == w {
            assert(locales_with_q(a, w) + locales_with_q(b.drop_last(), w).push(b.last())
                =~= (locales_with_q(a, w) + locales_with_q(b.drop_last(), w)).push(b.last()));
        }
    }
}

proof fn lemma_locales_with_q_absent(s: Seq<LocaleV>, w: int)
    requires
        forall|k: int| 0 <= k < s.len() ==> s[k].q != w,
    ensures
        locales_with_q(s, w) == Seq::<LocaleV>::empty(),
    decreases s.len(),
{
    if s.len() > 0 {
        lemma_locales_with_q_absent(s.drop_last(), w);
    }
}

/// Copy a range of a character slice.
fn copy_range(s: &[char], from: usize, to: usize) -> (r: Vec<char>)
    requires
        from <= to <= s@.len(),
    ensures
        r@ == s@.subrange(from as int, to as int),
{
    let mut r: Vec<char> = Vec::new();
    let mut i: usize = from;
    while i < to
        invariant
            from <= i <= to <= s@.len(),
            r@ == s@.subrange(from as int, i as int),
        decreases to - i,
    {
        r.push(s[i]);
        i = i + 1;
        proof {
            assert(r@ =~= s@.subrange(from as int, i as int));
        }
    }
    r
}

/// Parse one comma-separated `Accept-Language` part.
pub fn parse_locale(raw: &str) -> (r: Locale)
    ensures
        r@ == locale_from_spec(raw@),
{
    let cs = chars_of(raw);
    parse_locale_chars(cs.as_slice())
}

/// Parse one `Accept-Language` part given as characters.
pub fn parse_locale_chars(s: &[char]) -> (r: Locale)
    ensures
        r@ == locale_from_spec(s@),
{
    let semi = find_char(s, 0, ';');
    proof {
        lemma_first_index(s@, ';');
        if semi < s@.len() {
            lemma_first_index_unique(s@, ';', semi as int);
        } else {
            lemma_first_index_unique(s@, ';', s@.len() as int);
        }
    }
    let tag: Vec<char>;
    let q: u32;
    if semi < s.len() {
        let name_part = copy_range(s, 0, semi);
        let q_part = copy_range(s, semi + 1, s.len());
        tag = trim(name_part.as_slice());
        let q_trim = trim(q_part.as_slice());
        q = parse_qpart(q_trim.as_slice());
    } else {
        tag = copy_range(s, 0, s.len());
        q = DEFAULT_Q;
        proof {
            assert(tag@ =~= s@);
        }
    }
    let dash = find_char(tag.as_slice(), 0, '-');
    proof {
        lemma_first_index(tag@, '-');
        if dash < tag@.len() {
            lemma_first_index_unique(tag@, '-', dash as int);
        } else {
            lemma_first_index_unique(tag@, '-', tag@.len() as int);
        }
    }
    if dash < tag.len() {
        let name = copy_range(tag.as_slice(), 0, dash);
        let region = copy_range(tag.as_slice(), dash + 1, tag.len());
        Locale {
            name: string_of(name.as_slice()),
            region: string_of(region.as_slice()),
            q: q,
        }
    } else {
        let name = string_of(tag.as_slice());
        Locale { name: name, region: String::new(), q: q }
    }
}

/// Insert a locale into a weight-ordered vector, after every entry of equal
/// or greater weight.
fn insert_sorted(v: &mut Vec<Locale>, x: Locale)
    requires
        locales_sorted(locale_views(old(v)@)),
    ensures
        locales_sorted(locale_views(final(v)@)),
        locale_views(final(v)@).to_multiset() == locale_views(old(v)@).to_multiset().insert(x@),
        forall|w: int| #[trigger] locales_with_q(locale_views(final(v)@), w) == if w == x@.q {
            locales_with_q(locale_views(old(v)@), w).push(x@)
        } else {
            locales_with_q(locale_views(old(v)@), w)
        },
{
    let mut j: usize = v.len();
    while j > 0 && v[j - 1].q < x.q
        invariant
            j <= v@.len(),
            locales_sorted(locale_views(v@)),
            forall|k: int| j <= k < v@.len() ==> locale_views(v@)[k].q < x@.q,
        decreases j,
    {
        j = j - 1;
    }
    let ghost before = v@;
    let ghost xv = x@;
    v.insert(j, x);
    proof {
        assert(v@ =~= before.subrange(0, j as int) + seq![v@[j as int]] + before.subrange(
            j as int,
            before.len() as int,
        ));
        assert(locale_views(v@) =~= locale_views(before).subrange(0, j as int) + seq![xv]
            + locale_views(before).subrange(j as int, locale_views(before).len() as int));
        crate::accept::lemma_insert_multiset(locale_views(before), j as int, xv);
        let nv = locale_views(v@);
        let bv = locale_views(before);
        let front = bv.subrange(0, j as int);
        let back = bv.subrange(j as int, bv.len() as int);
        assert forall|w: int| #[trigger] locales_with_q(nv, w) == (if w == xv.q {
            locales_with_q(bv, w).push(xv)
        } else {
            locales_with_q(bv, w)
        }) by {
            assert(nv =~= front + seq![xv] + back);
            lemma_locales_with_q_concat(front + seq![xv], back, w);
            lemma_locales_with_q_concat(front, seq![xv], w);
            lemma_locales_with_q_concat(front, back, w);
            assert(front + back =~= bv);
            assert(seq![xv].len() == 1);
            assert(seq![xv].last() == xv);
            assert(seq![xv].drop_last() =~= Seq::<LocaleV>::empty());
            assert(locales_with_q(Seq::<LocaleV>::empty(), w) == Seq::<LocaleV>::empty());
            if w == xv.q {
                assert forall|k: int| 0 <= k < back.len() implies back[k].q != w by {
                    assert(back[k] == bv[j + k]);
                }
                lemma_locales_with_q_absent(back, w);
                assert(locales_with_q(seq![xv], w) =~= seq![xv]);
                assert(locales_with_q(nv, w) =~= locales_with_q(bv, w).push(xv));
            } else {
                assert(locales_with_q(seq![xv], w) =~= Seq::<LocaleV>::empty());
                assert(locales_with_q(nv, w) =~= locales_with_q(bv, w));
            }
        }
        assert(nv[j as int] == xv);
        assert(j > 0 ==> bv[j - 1].q >= xv.q);
        assert forall|a: int, b: int| 0 <= a < b < nv.len() implies nv[a].q >= nv[b].q by {
            if a < j && b == j {
                assert(nv[a] == bv[a]);
            } else if a == j && b > j {
                assert(nv[b] == bv[b - 1]);
            } else if a < j && b > j {
                assert(nv[a] == bv[a]);
                assert(nv[b] == bv[b - 1]);
            } else if a > j && b > j {
                assert(nv[a] == bv[a - 1]);
                assert(nv[b] == bv[b - 1]);
            }
        }
    }
}

/// A parsed `Accept-Language` list, ordered by weight, heaviest first.
#[derive(Debug, Clone)]
pub struct Locales(pub Vec<Locale>);

impl Locales {
    /// Parse an `Accept-Language` header value: comma-separated tags,
    /// ordered by weight non-increasing.
    pub fn from_header(v: &str) -> (r: Locales)
        ensures
            locales_sorted(locale_views(r.0@)),
            locale_views(r.0@).to_multiset() == locales_spec(v@).to_multiset(),
            forall|w: int| #[trigger] locales_with_q(locale_views(r.0@), w) == locales_with_q(
                locales_spec(v@),
                w,
            ),
            r.0@.len() == locales_spec(v@).len(),
            r.0@.len() >= 1,
    {
        let cs = chars_of(v);
        let parts = crate::strutil::split(cs.as_slice(), ',');
        let ghost sparts = split_spec(v@, ',');
        let mut out: Vec<Locale> = Vec::new();
        let mut i: usize = 0;
        proof {
            assert(locale_items(sparts.subrange(0, 0)) =~= Seq::<LocaleV>::empty());
            assert(locale_views(out@) =~= Seq::<LocaleV>::empty());
            assert(locale_views(out@).to_multiset() =~= locale_items(
                sparts.subrange(0, 0),
            ).to_multiset());
            assert(locale_views(out@) =~= locale_items(sparts.subrange(0, 0)));
        }
        while i < parts.len()
            invariant
                i <= parts@.len(),
                crate::strutil::views_of(parts@) == sparts,
                locales_sorted(locale_views(out@)),
                locale_views(out@).to_multiset() == locale_items(
                    sparts.subrange(0, i as int),
                ).to_multiset(),
                forall|w: int| #[trigger] locales_with_q(locale_views(out@), w) == locales_with_q(
                    locale_items(sparts.subrange(0, i as int)),
                    w,
                ),
            decreases parts@.len() - i,
        {
            let part = trim(parts[i].as_slice());
            let loc = parse_locale_chars(part.as_slice());
            proof {
                assert(parts@[i as int]@ == sparts[i as int]);
                let pre = sparts.subrange(0, i as int);
                let cur = sparts.subrange(0, i + 1);
                assert(cur.drop_last() =~= pre);
                assert(cur.last() == sparts[i as int]);
            }
            let ghost lv = loc@;
            insert_sorted(&mut out, loc);
            proof {
                broadcast use vstd::seq_lib::group_to_multiset_ensures;

                let pre = sparts.subrange(0, i as int);
                let pk = locale_items(pre);
                let ck = locale_items(sparts.subrange(0, i + 1));
                assert(ck.to_multiset() =~= pk.to_multiset().insert(lv));
                assert(ck == pk.push(lv));
                assert forall|w: int| #[trigger] locales_with_q(locale_views(out@), w)
                    == locales_with_q(ck, w) by {
                    assert(ck.drop_last() =~= pk);
                    assert(ck.last() == lv);
                }
            }
            i = i + 1;
        }
        proof {
            assert(sparts.subrange(0, sparts.len() as int) =~= sparts);
            lemma_locale_items_len(sparts);
            broadcast use vstd::seq_lib::group_to_multiset_ensures;

            assert(locale_views(out@).to_multiset().len() == locale_views(out@).len());
            assert(locales_spec(v@).to_multiset().len() == locales_spec(v@).len());
            assert(locale_views(out@).len() == out@.len());
        }
        Locales(out)
    }

    /// The list for a request: a `?lang=` query value replaces the whole
    /// header; with neither, English is assumed.
    pub fn from_request(lang: Option<&String>, header: Option<&String>) -> (r: Locales)
        ensures
            match lang {
                Some(l) => r.0@.len() == 1 && r.0@[0]@ == (LocaleV {
                    name: l@,
                    region: Seq::<char>::empty(),
                    q: DEFAULT_Q as int,
                }),
                None => match header {
                    Some(h) => locales_sorted(locale_views(r.0@)) && locale_views(
                        r.0@,
                    ).to_multiset() == locales_spec(h@).to_multiset(),
                    None => r.0@.len() == 1 && r.0@[0]@ == (LocaleV {
                        name: "en"@,
                        region: Seq::<char>::empty(),
                        q: DEFAULT_Q as int,
                    }),
                },
            },
            r.0@.len() >= 1,
    {
        match lang {
            Some(l) => {
                let mut out: Vec<Locale> = Vec::new();
                out.push(Locale { name: l.clone(), region: String::new(), q: DEFAULT_Q });
                Locales(out)
            },
            None => match header {
                Some(h) => Locales::from_header(h.as_str()),
                None => {
                    let mut out: Vec<Locale> = Vec::new();
                    let mut name = String::new();
                    crate::strutil::append_str(&mut name, "en");
                    out.push(Locale { name: name, region: String::new(), q: DEFAULT_Q });
                    proof {
                        assert(Seq::<char>::empty() + "en"@ =~= "en"@);
                    }
                    Locales(out)
                },
            },
        }
    }

    /// The number of locales.
    pub fn len(&self) -> (r: usize)
        ensures
            r == self.0@.len(),
    {
        self.0.len()
    }

    /// The locale at an index, heaviest weights first.
    pub fn get(&self, i: usize) -> (r: &Locale)
        requires
            i < self.0@.len(),
        ensures
            *r == self.0@[i as int],
    {
        &self.0[i]
    }
}

proof fn lemma_locale_items_len(parts: Seq<Seq<char>>)
    ensures
        locale_items(parts).len() == parts.len(),
    decreases parts.len(),
{
    if parts.len() > 0 {
        lemma_locale_items_len(parts.drop_last());
    }
}

impl Locale {
    /// The full tag: the name, and the region after a `-` when one is there.
    pub fn full_name(&self) -> (r: String)
        ensures
            self.region@.len() == 0 ==> r@ == self.name@,
            self.region@.len() > 0 ==> r@ == self.name@ + seq!['-'] + self.region@,
    {
        let mut key = String::new();
        crate::strutil::append_str(&mut key, self.name.as_str());
        if self.has_region() {
            crate::strutil::push_char(&mut key, '-');
            crate::strutil::append_str(&mut key, self.region.as_str());
            proof {
                assert((Seq::<char>::empty() + self.name@).push('-') + self.region@ =~= self.name@
                    + seq!['-'] + self.region@);
            }
        } else {
            proof {
                assert(Seq::<char>::empty() + self.name@ =~= self.name@);
            }
        }
        key
    }

    /// Whether a region remainder is present.
    pub fn has_region(&self) -> (r: bool)
        ensures
            r == (self.region@.len() > 0),
    {
        !self.region.as_str().is_empty()
    }
}

/// The decimal text of a weight in thousandths, trailing zeros of the
/// fraction dropped.
pub open spec fn q_text(q: int) -> Seq<char> {
    let ip = crate::strutil::dec_str((q / 1000) as nat);
    let f = q % 1000;
    if f == 0 {
        ip
    } else {
        ip + seq!['.'] + frac_text(f)
    }
}

pub open spec fn frac_text(f: int) -> Seq<char> {
    let d1 = ((f / 100) + 48) as char;
    let d2 = (((f / 10) % 10) + 48) as char;
    let d3 = ((f % 10) + 48) as char;
    if f % 10 != 0 {
        seq![d1, d2, d3]
    } else if (f / 10) % 10 != 0 {
        seq![d1, d2]
    } else {
        seq![d1]
    }
}

/// The header text of a locale: the full tag and its weight.
pub open spec fn locale_str(l: LocaleV) -> Seq<char> {
    let tag = if l.region.len() == 0 {
        l.name
    } else {
        l.name + seq!['-'] + l.region
    };
    tag + ";q="@ + q_text(l.q)
}

impl Locale {
    /// Write this locale as it would stand in a header: the full tag,
    /// then `;q=` and the weight.
    pub fn to_string(&self) -> (r: String)
        ensures
            r@ == locale_str(self@),
    {
        let mut s = self.full_name();
        crate::strutil::append_str(&mut s, ";q=");
        let ip = crate::strutil::u64_to_string((self.q / 1000) as u64);
        crate::strutil::append_str(&mut s, ip.as_str());
        let f = self.q % 1000;
        if f != 0 {
            crate::strutil::push_char(&mut s, '.');
            let d1 = ((f / 100) as u8 + 48) as char;
            let d2 = (((f / 10) % 10) as u8 + 48) as char;
            let d3 = ((f % 10) as u8 + 48) as char;
            if f % 10 != 0 {
                crate::strutil::push_char(&mut s, d1);
                crate::strutil::push_char(&mut s, d2);
                crate::strutil::push_char(&mut s, d3);
                proof {
                    assert(frac_text(f as int) =~= seq![d1, d2, d3]);
                }
            } else if (f / 10) % 10 != 0 {
                crate::strutil::push_char(&mut s, d1);
                crate::strutil::push_char(&mut s, d2);
                proof {
                    assert(frac_text(f as int) =~= seq![d1, d2]);
                }
            } else {
                crate::strutil::push_char(&mut s, d1);
                proof {
                    assert(frac_text(f as int) =~= seq![d1]);
                }
            }
        }
        proof {
            assert(s@ =~= locale_str(self@));
        }
        s
    }
}

} // verus!
