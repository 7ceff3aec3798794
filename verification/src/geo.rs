//! GeoIP lookup: localized name resolution against `Accept-Language`
//! preferences, and assembly of the location response. The database
//! records arrive as plain values; reading them out of the MaxMind format
//! is the caller's concern.
use vstd::prelude::*;

use crate::ip::IpAddr;
use crate::locale::locale_views;
use crate::locale::LocaleV;
use crate::locale::Locales;
use crate::strutil::str_eq;

verus! {

/// A table of localized names, keyed by language code, in the order the
/// database gives them.
#[derive(Debug, Clone)]
pub struct NameTable(pub Vec<(String, String)>);

/// The first value stored under a key.
pub open spec fn table_lookup(t: Seq<(String, String)>, k: Seq<char>) -> Option<Seq<char>>
    decreases t.len(),
{
    if t.len() == 0 {
        None
    } else if t[0].0@ == k {
        Some(t[0].1@)
    } else {
        table_lookup(t.subrange(1, t.len() as int), k)
    }
}

/// The keys of a table, in order.
pub open spec fn table_keys(t: Seq<(String, String)>) -> Seq<Seq<char>>
    decreases t.len(),
{
    if t.len() == 0 {
        Seq::<Seq<char>>::empty()
    } else {
        seq![t[0].0@] + table_keys(t.subrange(1, t.len() as int))
    }
}

impl NameTable {
    /// Find the first value stored under a key.
    pub fn get(&self, key: &str) -> (r: Option<&String>)
        ensures
            match r {
                Some(v) => table_lookup(self.0@, key@) == Some(v@),
                None => table_lookup(self.0@, key@) is None,
            },
    {
        let mut i: usize = 0;
        proof {
            assert(self.0@.subrange(0, self.0@.len() as int) =~= self.0@);
        }
        while i < self.0.len()
            invariant
                i <= self.0@.len(),
                table_lookup(self.0@, key@) == table_lookup(
                    self.0@.subrange(i as int, self.0@.len() as int),
                    key@,
                ),
            decreases self.0@.len() - i,
        {
            let ghost suffix = self.0@.subrange(i as int, self.0@.len() as int);
            proof {
                assert(suffix[0] == self.0@[i as int]);
                assert(suffix.subrange(1, suffix.len() as int) =~= self.0@.subrange(
                    i + 1,
                    self.0@.len() as int,
                ));
            }
            if str_eq(self.0[i].0.as_str(), key) {
                return Some(&self.0[i].1);
            }
            i = i + 1;
        }
        None
    }
}

/// The errors of a lookup.
#[derive(Debug, Clone, Copy, PartialEq, Eq, Structural)]
pub enum GeoError {
    /// The address has no location record.
    NotFound,
    /// No language preference matched any name table.
    BadLang,
    /// The database could not be read.
    Internal,
}

impl GeoError {
    /// The user-visible message of this error.
    pub fn message(&self) -> (r: &'static str)
        ensures
            *self == GeoError::NotFound ==> r@ == "ip address location not found"@,
            *self == GeoError::BadLang ==> r@ == "invalid language code"@,
            *self == GeoError::Internal ==> r@ == "internal database error"@,
    {
        match self {
            GeoError::NotFound => "ip address location not found",
            GeoError::BadLang => "invalid language code",
            GeoError::Internal => "internal database error",
        }
    }

    /// The HTTP status this error maps to.
    pub fn status_code(&self) -> (r: u16)
        ensures
            *self == GeoError::NotFound ==> r == 404,
            *self == GeoError::BadLang ==> r == 400,
            *self == GeoError::Internal ==> r == 500,
    {
        match self {
            GeoError::NotFound => 404,
            GeoError::BadLang => 400,
            GeoError::Internal => 500,
        }
    }
}

/// How a city database failure reads: the address may have no record, the
/// queried network may be invalid, or the read itself may have failed.
#[derive(Debug, Clone, Copy, PartialEq, Eq, Structural)]
pub enum DbFail {
    AddressNotFound,
    InvalidNetwork,
    Other,
}

/// The lookup error for a database failure: a missing address or an
/// invalid network read as not-found, the rest as internal.
pub fn geo_error_of(f: DbFail) -> (r: GeoError)
    ensures
        f == DbFail::AddressNotFound ==> r == GeoError::NotFound,
        f == DbFail::InvalidNetwork ==> r == GeoError::NotFound,
        f == DbFail::Other ==> r == GeoError::Internal,
{
    match f {
        DbFail::AddressNotFound => GeoError::NotFound,
        DbFail::InvalidNetwork => GeoError::NotFound,
        DbFail::Other => GeoError::Internal,
    }
}

/// Whether a pair of database handles arrived in the wrong order: the one
/// opened as the city database reports itself as the ASN edition.
pub fn db_order_swapped(city_db_type: &str) -> (r: bool)
    ensures
        r == (city_db_type@ == "GeoLite2-ASN"@),
{
    str_eq(city_db_type, "GeoLite2-ASN")
}

/// The country part of a city record.
#[derive(Debug, Clone)]
pub struct CountryRecord {
    pub iso_code: Option<String>,
    pub names: Option<NameTable>,
}

/// The city part of a city record.
#[derive(Debug, Clone)]
pub struct CityPart {
    pub geoname_id: Option<u32>,
    pub names: Option<NameTable>,
}

/// One subdivision of a city record.
#[derive(Debug, Clone)]
pub struct SubdivisionRecord {
    pub iso_code: Option<String>,
    pub names: Option<NameTable>,
}

/// A city database record, as plain values.
#[derive(Debug, Clone)]
pub struct CityRecord {
    pub country: Option<CountryRecord>,
    pub city: Option<CityPart>,
    pub subdivisions: Option<Vec<SubdivisionRecord>>,
}

/// The country of a response.
#[derive(Debug, Clone)]
pub struct Country {
    pub iso_code: Option<String>,
    pub name: Option<String>,
}

/// The city of a response.
#[derive(Debug, Clone)]
pub struct City {
    pub name: Option<String>,
    pub id: Option<u32>,
}

/// One subdivision of a response.
#[derive(Debug, Clone)]
pub struct Subdivision {
    pub iso_code: Option<String>,
    pub name: Option<String>,
}

/// A location response: the resolved locale travels as the
/// `Content-Language` header, not in the body.
#[derive(Debug, Clone)]
pub struct GeoLoc {
    pub ip: Option<IpAddr>,
    pub locale: String,
    pub as_org: Option<String>,
    pub country: Option<Country>,
    pub city: Option<City>,
    pub subdivisions: Option<Vec<Subdivision>>,
}

pub open spec fn opt_str_view(s: Option<String>) -> Option<Seq<char>> {
    match s {
        Some(x) => Some(x@),
        None => None,
    }
}

pub open spec fn opt_table_view(t: Option<NameTable>) -> Option<Seq<(String, String)>> {
    match t {
        Some(x) => Some(x.0@),
        None => None,
    }
}

/// The views of a vector of subdivisions.
pub open spec fn sub_views(v: Seq<Subdivision>) -> Seq<SubdivisionView> {
    v.map_values(|s: Subdivision| s@)
}

/// The mathematical value of a response country.
#[verifier::ext_equal]
pub struct CountryView {
    pub iso_code: Option<Seq<char>>,
    pub name: Option<Seq<char>>,
}

#[verifier::ext_equal]
pub struct CityView {
    pub name: Option<Seq<char>>,
    pub id: Option<u32>,
}

#[verifier::ext_equal]
pub struct SubdivisionView {
    pub iso_code: Option<Seq<char>>,
    pub name: Option<Seq<char>>,
}

#[verifier::ext_equal]
pub struct GeoLocView {
    pub ip: Option<IpAddr>,
    pub locale: Seq<char>,
    pub as_org: Option<Seq<char>>,
    pub country: Option<CountryView>,
    pub city: Option<CityView>,
    pub subdivisions: Option<Seq<SubdivisionView>>,
}

impl View for Country {
    type V = CountryView;

    open spec fn view(&self) -> CountryView {
        CountryView { iso_code: opt_str_view(self.iso_code), name: opt_str_view(self.name) }
    }
}

impl View for City {
    type V = CityView;

    open spec fn view(&self) -> CityView {
        CityView { name: opt_str_view(self.name), id: self.id }
    }
}

impl View for Subdivision {
    type V = SubdivisionView;

    open spec fn view(&self) -> SubdivisionView {
        SubdivisionView { iso_code: opt_str_view(self.iso_code), name: opt_str_view(self.name) }
    }
}

impl View for GeoLoc {
    type V = GeoLocView;

    open spec fn view(&self) -> GeoLocView {
        GeoLocView {
            ip: self.ip,
            locale: self.locale@,
            as_org: opt_str_view(self.as_org),
            country: match self.country {
                Some(c) => Some(c@),
                None => None,
            },
            city: match self.city {
                Some(c) => Some(c@),
                None => None,
            },
            subdivisions: match self.subdivisions {
                Some(v) => Some(sub_views(v@)),
                None => None,
            },
        }
    }
}

/// The full tag of a locale: the name, with the region after a `-` when
/// one is there.
pub open spec fn full_tag(l: LocaleV) -> Seq<char> {
    if l.region.len() == 0 {
        l.name
    } else {
        l.name + seq!['-'] + l.region
    }
}

/// Search the preference list, best weights first: for each locale, try
/// the full tag, then the bare name.
pub open spec fn resolve_in_locales(t: Seq<(String, String)>, locs: Seq<LocaleV>) -> Option<
    (Seq<char>, Seq<char>),
>
    decreases locs.len(),
{
    if locs.len() == 0 {
        None
    } else {
        let full = full_tag(locs[0]);
        match table_lookup(t, full) {
            Some(name) => Some((name, full)),
            None => match table_lookup(t, locs[0].name) {
                Some(name) => Some((name, locs[0].name)),
                None => resolve_in_locales(t, locs.subrange(1, locs.len() as int)),
            },
        }
    }
}

/// The resolved name and the tag it was found under: a missing table is an
/// internal failure; a non-empty hint is tried before the preference list;
/// no match at all is a bad language.
pub open spec fn resolve_name_spec(
    t: Option<Seq<(String, String)>>,
    hint: Seq<char>,
    locs: Seq<LocaleV>,
) -> Result<(Seq<char>, Seq<char>), GeoError> {
    match t {
        None => Err(GeoError::Internal),
        Some(tab) => if hint.len() > 0 && table_lookup(tab, hint) is Some {
            Ok((table_lookup(tab, hint)->0, hint))
        } else {
            match resolve_in_locales(tab, locs) {
                Some(p) => Ok(p),
                None => Err(GeoError::BadLang),
            }
        },
    }
}

/// Resolve a localized name out of a table against a locale hint and the
/// preference list.
pub fn get_i18n_name(names: Option<&NameTable>, cache: &str, locales: &Locales) -> (r: Result<
    (String, String),
    GeoError,
>)
    ensures
        match r {
            Ok(p) => resolve_name_spec(
                spec_opt_table(names),
                cache@,
                locale_views(locales.0@),
            ) == Ok::<(Seq<char>, Seq<char>), GeoError>((p.0@, p.1@)),
            Err(e) => resolve_name_spec(spec_opt_table(names), cache@, locale_views(locales.0@))
                == Err::<(Seq<char>, Seq<char>), GeoError>(e),
        },
{
    let tab = match names {
        Some(t) => t,
        None => {
            return Err(GeoError::Internal);
        },
    };
    if !cache.is_empty() {
        match tab.get(cache) {
            Some(name) => {
                return Ok((name.clone(), cache.to_owned()));
            },
            None => {},
        }
    }
    let mut i: usize = 0;
    let ghost locs = locale_views(locales.0@);
    proof {
        assert(locs.subrange(0, locs.len() as int) =~= locs);
    }
    while i < locales.0.len()
        invariant
            i <= locales.0@.len(),
            locs == locale_views(locales.0@),
            spec_opt_table(names) == Some(tab.0@),
            !(cache@.len() > 0 && table_lookup(tab.0@, cache@) is Some),
            resolve_in_locales(tab.0@, locs) == resolve_in_locales(
                tab.0@,
                locs.subrange(i as int, locs.len() as int),
            ),
        decreases locales.0@.len() - i,
    {
        let ghost suffix = locs.subrange(i as int, locs.len() as int);
        proof {
            assert(suffix[0] == locs[i as int]);
            assert(locs[i as int] == locales.0@[i as int]@);
            assert(suffix.subrange(1, suffix.len() as int) =~= locs.subrange(
                i + 1,
                locs.len() as int,
            ));
        }
        let loc = locales.get(i);
        let key = loc.full_name();
        proof {
            assert(key@ == full_tag(locs[i as int]));
        }
        match tab.get(key.as_str()) {
            Some(name) => {
                return Ok((name.clone(), key));
            },
            None => {},
        }
        match tab.get(loc.name.as_str()) {
            Some(name) => {
                return Ok((name.clone(), loc.name.clone()));
            },
            None => {},
        }
        i = i + 1;
    }
    proof {
        assert(locs.subrange(locs.len() as int, locs.len() as int) =~= Seq::<LocaleV>::empty());
    }
    Err(GeoError::BadLang)
}

pub open spec fn spec_opt_table(names: Option<&NameTable>) -> Option<Seq<(String, String)>> {
    match names {
        Some(t) => Some(t.0@),
        None => None,
    }
}

/// The resolved subdivisions, and the locale after them: entries whose
/// names cannot be resolved are left out; the first success fills an empty
/// locale.
pub open spec fn subs_resolve(
    items: Seq<SubdivisionRecord>,
    hint: Seq<char>,
    locs: Seq<LocaleV>,
) -> (Seq<SubdivisionView>, Seq<char>)
    decreases items.len(),
{
    if items.len() == 0 {
        (Seq::<SubdivisionView>::empty(), hint)
    } else {
        match resolve_name_spec(opt_table_view(items[0].names), hint, locs) {
            Ok(p) => {
                let hint2 = if hint.len() == 0 {
                    p.1
                } else {
                    hint
                };
                let rest = subs_resolve(items.subrange(1, items.len() as int), hint2, locs);
                (
                    seq![
                        SubdivisionView {
                            iso_code: opt_str_view(items[0].iso_code),
                            name: Some(p.0),
                        },
                    ] + rest.0,
                    rest.1,
                )
            },
            Err(e) => subs_resolve(items.subrange(1, items.len() as int), hint, locs),
        }
    }
}

/// The whole response of a lookup, over the record's values: country then
/// city then subdivisions, the first resolved tag becoming the locale.
pub open spec fn lookup_view_spec(
    rec: CityRecord,
    as_org: Option<String>,
    locs: Seq<LocaleV>,
) -> Result<GeoLocView, GeoError> {
    let c_step = match rec.country {
        Some(c) => match resolve_name_spec(opt_table_view(c.names), Seq::<char>::empty(), locs) {
            Ok(p) => Ok(
                (
                    Some(
                        CountryView { iso_code: opt_str_view(c.iso_code), name: Some(p.0) },
                    ),
                    p.1,
                ),
            ),
            Err(e) => Err(e),
        },
        None => Ok((None::<CountryView>, Seq::<char>::empty())),
    };
    match c_step {
        Err(e) => Err(e),
        Ok(cp) => {
            let country = cp.0;
            let loc1 = cp.1;
            let ci_step = match rec.city {
                Some(ci) => match resolve_name_spec(opt_table_view(ci.names), loc1, locs) {
                    Ok(p) => Ok(
                        (
                            Some(CityView { name: Some(p.0), id: ci.geoname_id }),
                            if loc1.len() == 0 {
                                p.1
                            } else {
                                loc1
                            },
                        ),
                    ),
                    Err(e) => Err(e),
                },
                None => Ok((None::<CityView>, loc1)),
            };
            match ci_step {
                Err(e) => Err(e),
                Ok(cip) => {
                    let city = cip.0;
                    let loc2 = cip.1;
                    let subs_step = match rec.subdivisions {
                        Some(items) => {
                            let sr = subs_resolve(items@, loc2, locs);
                            (Some(sr.0), sr.1)
                        },
                        None => (None::<Seq<SubdivisionView>>, loc2),
                    };
                    Ok(
                        GeoLocView {
                            ip: None,
                            locale: subs_step.1,
                            as_org: opt_str_view(as_org),
                            country: country,
                            city: city,
                            subdivisions: subs_step.0,
                        },
                    )
                },
            }
        },
    }
}

/// Assemble the response for a city record: localized names are resolved
/// country first, then city, then each subdivision; the first resolved tag
/// becomes the response locale and is preferred afterwards; a subdivision
/// without a matching name is left out. The ASN organisation, looked up
/// best-effort by the caller, is carried through.
pub fn lookup(record: &CityRecord, as_org: Option<String>, locales: &Locales) -> (r: Result<
    GeoLoc,
    GeoError,
>)
    ensures
        match r {
            Ok(g) => lookup_view_spec(*record, as_org, locale_views(locales.0@))
                == Ok::<GeoLocView, GeoError>(g@),
            Err(e) => lookup_view_spec(*record, as_org, locale_views(locales.0@)) is Err
                && lookup_view_spec(*record, as_org, locale_views(locales.0@))->Err_0 == e,
        },
{
    let ghost locs = locale_views(locales.0@);
    let mut locale = String::new();
    let country: Option<Country> = match &record.country {
        Some(c) => {
            let p = match get_i18n_name(c.names.as_ref(), locale.as_str(), locales) {
                Ok(p) => p,
                Err(e) => {
                    return Err(e);
                },
            };
            locale = p.1;
            Some(Country { iso_code: clone_opt_string(&c.iso_code), name: Some(p.0) })
        },
        None => None,
    };
    let city: Option<City> = match &record.city {
        Some(ci) => {
            let p = match get_i18n_name(ci.names.as_ref(), locale.as_str(), locales) {
                Ok(p) => p,
                Err(e) => {
                    return Err(e);
                },
            };
            let name = p.0;
            if locale.as_str().is_empty() {
                locale = p.1;
            }
            Some(City { name: Some(name), id: ci.geoname_id })
        },
        None => None,
    };
    let subdivisions: Option<Vec<Subdivision>> = match &record.subdivisions {
        Some(items) => {
            let ghost loc2 = locale@;
            let mut out: Vec<Subdivision> = Vec::new();
            let mut i: usize = 0;
            proof {
                assert(items@.subrange(0, items@.len() as int) =~= items@);
                assert(sub_views(out@) =~= Seq::<SubdivisionView>::empty());
            }
            while i < items.len()
                invariant
                    i <= items@.len(),
                    locs == locale_views(locales.0@),
                    subs_resolve(items@, loc2, locs) == (
                        sub_views(out@) + subs_resolve(
                            items@.subrange(i as int, items@.len() as int),
                            locale@,
                            locs,
                        ).0,
                        subs_resolve(
                            items@.subrange(i as int, items@.len() as int),
                            locale@,
                            locs,
                        ).1,
                    ),
                decreases items@.len() - i,
            {
                let ghost suffix = items@.subrange(i as int, items@.len() as int);
                proof {
                    assert(suffix[0] == items@[i as int]);
                    assert(suffix.subrange(1, suffix.len() as int) =~= items@.subrange(
                        i + 1,
                        items@.len() as int,
                    ));
                }
                let item = &items[i];
                match get_i18n_name(item.names.as_ref(), locale.as_str(), locales) {
                    Ok(p) => {
                        if locale.as_str().is_empty() {
                            locale = p.1;
                        }
                        let sd = Subdivision {
                            iso_code: clone_opt_string(&item.iso_code),
                            name: Some(p.0),
                        };
                        let ghost sdv = sd@;
                        out.push(sd);
                        proof {
                            assert(out@.drop_last() =~= out@.subrange(0, out@.len() - 1));
                            assert(sub_views(out@) =~= sub_views(out@.drop_last()) + seq![sdv]);
                        }
                    },
                    Err(_) => {},
                }
                i = i + 1;
            }
            proof {
                assert(items@.subrange(items@.len() as int, items@.len() as int) =~= Seq::<
                    SubdivisionRecord,
                >::empty());
            }
            Some(out)
        },
        None => None,
    };
    Ok(
        GeoLoc {
            ip: None,
            locale: locale,
            as_org: as_org,
            country: country,
            city: city,
            subdivisions: subdivisions,
        },
    )
}

/// Clone an optional string.
fn clone_opt_string(s: &Option<String>) -> (r: Option<String>)
    ensures
        opt_str_view(r) == opt_str_view(*s),
        r is Some <==> *s is Some,
{
    match s {
        Some(x) => Some(x.clone()),
        None => None,
    }
}

/// The language codes on offer for a record: the keys of the country's
/// name table; a record without one has no languages to offer.
pub fn languages(record: &CityRecord) -> (r: Result<Vec<String>, GeoError>)
    ensures
        match r {
            Ok(keys) => match record.country {
                Some(c) => c.names is Some && crate::strutil::str_views(keys@) == table_keys(
                    (c.names->0).0@,
                ),
                None => false,
            },
            Err(e) => e == GeoError::NotFound && (record.country is None || record.country->0.names
                is None),
        },
{
    let c = match &record.country {
        Some(c) => c,
        None => {
            return Err(GeoError::NotFound);
        },
    };
    let tab = match &c.names {
        Some(t) => t,
        None => {
            return Err(GeoError::NotFound);
        },
    };
    let mut keys: Vec<String> = Vec::new();
    let mut i: usize = 0;
    proof {
        assert(tab.0@.subrange(0, tab.0@.len() as int) =~= tab.0@);
        assert(crate::strutil::str_views(keys@) =~= Seq::<Seq<char>>::empty());
    }
    while i < tab.0.len()
        invariant
            i <= tab.0@.len(),
            table_keys(tab.0@) == crate::strutil::str_views(keys@) + table_keys(
                tab.0@.subrange(i as int, tab.0@.len() as int),
            ),
        decreases tab.0@.len() - i,
    {
        let ghost suffix = tab.0@.subrange(i as int, tab.0@.len() as int);
        proof {
            assert(suffix[0] == tab.0@[i as int]);
            assert(suffix.subrange(1, suffix.len() as int) =~= tab.0@.subrange(
                i + 1,
                tab.0@.len() as int,
            ));
        }
        let k = tab.0[i].0.clone();
        let ghost kv = k@;
        keys.push(k);
        proof {
            assert(crate::strutil::str_views(keys@) =~= crate::strutil::str_views(
                keys@.subrange(0, keys@.len() - 1),
            ) + seq![kv]);
            assert(keys@.subrange(0, keys@.len() - 1) =~= keys@.drop_last());
        }
        i = i + 1;
    }
    proof {
        assert(tab.0@.subrange(tab.0@.len() as int, tab.0@.len() as int) =~= Seq::<
            (String, String),
        >::empty());
        assert(table_keys(Seq::<(String, String)>::empty()) =~= Seq::<Seq<char>>::empty());
    }
    Ok(keys)
}

/// Every key of a table is a non-empty tag.
pub open spec fn table_keys_nonempty(t: Seq<(String, String)>) -> bool {
    forall|i: int| 0 <= i < t.len() ==> (#[trigger] t[i]).0@.len() > 0
}

/// Every name table of a record has non-empty keys.
pub open spec fn record_keys_nonempty(rec: CityRecord) -> bool {
    &&& match rec.country {
        Some(c) => match c.names {
            Some(t) => table_keys_nonempty(t.0@),
            None => true,
        },
        None => true,
    }
    &&& match rec.city {
        Some(c) => match c.names {
            Some(t) => table_keys_nonempty(t.0@),
            None => true,
        },
        None => true,
    }
    &&& match rec.subdivisions {
        Some(items) => forall|i: int|
            0 <= i < items@.len() ==> match (#[trigger] items@[i]).names {
                Some(t) => table_keys_nonempty(t.0@),
                None => true,
            },
        None => true,
    }
}

/// A found key is one of the table's keys.
proof fn lemma_lookup_key_present(t: Seq<(String, String)>, k: Seq<char>)
    requires
        table_lookup(t, k) is Some,
        table_keys_nonempty(t),
    ensures
        k.len() > 0,
    decreases t.len(),
{
    if t.len() > 0 {
        if t[0].0@ == k {
        } else {
            let sub = t.subrange(1, t.len() as int);
            assert(forall|i: int| 0 <= i < sub.len() ==> #[trigger] sub[i] == t[i + 1]);
            lemma_lookup_key_present(sub, k);
        }
    }
}

/// A successful resolution returns a non-empty tag when the table's keys
/// are non-empty.
proof fn lemma_resolve_tag_nonempty(
    t: Seq<(String, String)>,
    hint: Seq<char>,
    locs: Seq<LocaleV>,
)
    requires
        table_keys_nonempty(t),
        resolve_name_spec(Some(t), hint, locs) is Ok,
    ensures
        (resolve_name_spec(Some(t), hint, locs)->Ok_0).1.len() > 0,
{
    if hint.len() > 0 && table_lookup(t, hint) is Some {
    } else {
        lemma_resolve_in_locales_tag(t, locs);
    }
}

proof fn lemma_resolve_in_locales_tag(t: Seq<(String, String)>, locs: Seq<LocaleV>)
    requires
        table_keys_nonempty(t),
    ensures
        resolve_in_locales(t, locs) is Some ==> (resolve_in_locales(t, locs)->0).1.len() > 0,
    decreases locs.len(),
{
    if locs.len() > 0 {
        let full = full_tag(locs[0]);
        if table_lookup(t, full) is Some {
            lemma_lookup_key_present(t, full);
        } else if table_lookup(t, locs[0].name) is Some {
            lemma_lookup_key_present(t, locs[0].name);
        } else {
            lemma_resolve_in_locales_tag(t, locs.subrange(1, locs.len() as int));
        }
    }
}

/// The locale after the subdivisions: a non-empty hint stays; an empty
/// one becomes non-empty as soon as some entry resolves.
proof fn lemma_subs_locale(items: Seq<SubdivisionRecord>, hint: Seq<char>, locs: Seq<LocaleV>)
    requires
        forall|i: int|
            0 <= i < items.len() ==> match (#[trigger] items[i]).names {
                Some(t) => table_keys_nonempty(t.0@),
                None => true,
            },
    ensures
        hint.len() > 0 ==> subs_resolve(items, hint, locs).1 == hint,
        subs_resolve(items, hint, locs).0.len() > 0 ==> subs_resolve(items, hint, locs).1.len()
            > 0,
    decreases items.len(),
{
    if items.len() > 0 {
        let sub = items.subrange(1, items.len() as int);
        assert(forall|i: int| 0 <= i < sub.len() ==> #[trigger] sub[i] == items[i + 1]);
        match resolve_name_spec(opt_table_view(items[0].names), hint, locs) {
            Ok(p) => {
                match items[0].names {
                    Some(t) => {
                        lemma_resolve_tag_nonempty(t.0@, hint, locs);
                    },
                    None => {},
                }
                let hint2 = if hint.len() == 0 {
                    p.1
                } else {
                    hint
                };
                lemma_subs_locale(sub, hint2, locs);
            },
            Err(_) => {
                lemma_subs_locale(sub, hint, locs);
            },
        }
    }
}

/// When any name is present in a response, the locale names the table it
/// came from, so it is not empty. This holds of records whose tables key
/// their names by non-empty tags; a table with an empty-string key could
/// set an empty locale.
pub proof fn lemma_locale_set_when_named(
    rec: CityRecord,
    as_org: Option<String>,
    locs: Seq<LocaleV>,
)
    requires
        record_keys_nonempty(rec),
        lookup_view_spec(rec, as_org, locs) is Ok,
    ensures
        ({
            let v = lookup_view_spec(rec, as_org, locs)->Ok_0;
            (v.country is Some || v.city is Some || (v.subdivisions is Some
                && v.subdivisions->0.len() > 0)) ==> v.locale.len() > 0
        }),
{
    let v = lookup_view_spec(rec, as_org, locs)->Ok_0;
    let loc1 = match rec.country {
        Some(c) => {
            match c.names {
                Some(t) => {
                    lemma_resolve_tag_nonempty(t.0@, Seq::<char>::empty(), locs);
                },
                None => {},
            }
            (resolve_name_spec(opt_table_view(c.names), Seq::<char>::empty(), locs)->Ok_0).1
        },
        None => Seq::<char>::empty(),
    };
    let loc2 = match rec.city {
        Some(ci) => {
            match ci.names {
                Some(t) => {
                    lemma_resolve_tag_nonempty(t.0@, loc1, locs);
                },
                None => {},
            }
            if loc1.len() == 0 {
                (resolve_name_spec(opt_table_view(ci.names), loc1, locs)->Ok_0).1
            } else {
                loc1
            }
        },
        None => loc1,
    };
    match rec.subdivisions {
        Some(items) => {
            lemma_subs_locale(items@, loc2, locs);
        },
        None => {},
    }
}

} // verus!
