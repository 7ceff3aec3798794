//! The short-link store: collision-avoiding identifiers, create with
//! set-if-absent semantics, read, delete and list over a key/value state,
//! and a counter that steers the identifier length. The key/value state is
//! held as a plain model; a driver mirrors each command onto the real
//! store one to one.
use vstd::prelude::*;

use crate::nanoid::calc_id_size;
use crate::nanoid::id_size_ok;
use crate::nanoid::gen_str_id;
use crate::nanoid::is_b64_str;
use crate::strutil::append_str;
use crate::strutil::push_char;
use crate::strutil::str_eq;

verus! {

/// A stored link: the target, and an informational access budget.
#[derive(Debug)]
pub struct Link {
    pub url: String,
    pub accesses: Option<u32>,
}

/// The request to create a link.
#[derive(Debug)]
pub struct CreateRequest {
    pub url: String,
    pub expires: Option<u64>,
    pub access_limit: Option<u32>,
}

/// One listed link, with the key it is stored under.
#[derive(Debug)]
pub struct LinkInfo {
    pub link: Link,
    pub key: String,
    pub expires: Option<u64>,
}

/// The mathematical value of a stored link.
#[verifier::ext_equal]
pub struct LinkV {
    pub url: Seq<char>,
    pub accesses: Option<u32>,
}

impl View for Link {
    type V = LinkV;

    open spec fn view(&self) -> LinkV {
        LinkV { url: self.url@, accesses: self.accesses }
    }
}

/// One key of the store, with its payload and its time to live in
/// seconds.
#[derive(Debug)]
pub struct Entry {
    pub key: String,
    pub link: Link,
    pub ttl: u64,
}

/// The keys and the counter of the key/value state.
#[derive(Debug)]
pub struct Kv {
    pub entries: Vec<Entry>,
    pub count: u64,
}

/// The counter saturates here; a larger population would ask for more
/// than twenty identifier characters anyway.
pub const COUNT_CAP: u64 = 1000000000000;

/// The keyed contents of the store.
pub open spec fn kv_map(entries: Seq<Entry>) -> Map<Seq<char>, LinkV>
    decreases entries.len(),
{
    if entries.len() == 0 {
        Map::<Seq<char>, LinkV>::empty()
    } else {
        kv_map(entries.drop_last()).insert(entries.last().key@, entries.last().link@)
    }
}

impl Kv {
    /// Well-formed state: distinct keys, and the counter under its cap.
    pub open spec fn wf(self) -> bool {
        &&& forall|i: int, j: int|
            0 <= i < j < self.entries@.len() ==> (#[trigger] self.entries@[i]).key@ != (
            #[trigger] self.entries@[j]).key@
        &&& self.count <= COUNT_CAP
    }

    /// The keyed contents.
    pub open spec fn view_map(self) -> Map<Seq<char>, LinkV> {
        kv_map(self.entries@)
    }

    /// An empty store with the counter at zero.
    pub fn new() -> (r: Kv)
        ensures
            r.wf(),
            r.view_map() == Map::<Seq<char>, LinkV>::empty(),
            r.count == 0,
    {
        proof {
            assert(kv_map(Seq::<Entry>::empty()) =~= Map::<Seq<char>, LinkV>::empty());
        }
        Kv { entries: Vec::new(), count: 0 }
    }

    /// Set a key only when it is absent, with a time to live: the reply
    /// says whether the key was written.
    pub fn set_nx_ex(&mut self, key: String, link: Link, ttl: u64) -> (r: bool)
        requires
            old(self).wf(),
        ensures
            final(self).wf(),
            final(self).count == old(self).count,
            r == !old(self).view_map().contains_key(key@),
            r ==> final(self).view_map() == old(self).view_map().insert(key@, link@),
            r ==> final(self).entries@ == old(self).entries@.push(
                (Entry { key: key, link: link, ttl: ttl }),
            ),
            !r ==> final(self).view_map() == old(self).view_map(),
            !r ==> final(self).entries@ == old(self).entries@,
    {
        let mut i: usize = 0;
        while i < self.entries.len()
            invariant
                self == old(self),
                old(self).wf(),
                i <= self.entries@.len(),
                forall|j: int| 0 <= j < i ==> (#[trigger] self.entries@[j]).key@ != key@,
            decreases self.entries@.len() - i,
        {
            if str_eq(self.entries[i].key.as_str(), key.as_str()) {
                proof {
                    lemma_kv_map_contains(self.entries@, key@);
                }
                return false;
            }
            i = i + 1;
        }
        proof {
            lemma_kv_map_contains(self.entries@, key@);
        }
        let ghost before = self.entries@;
        let ghost linkv = link@;
        let ghost keyv = key@;
        self.entries.push(Entry { key: key, link: link, ttl: ttl });
        proof {
            assert(self.entries@.drop_last() =~= before);
            assert(self.view_map() =~= kv_map(before).insert(keyv, linkv));
        }
        true
    }

    /// Read the payload under a key.
    pub fn get(&self, key: &str) -> (r: Option<Link>)
        requires
            self.wf(),
        ensures
            match r {
                Some(l) => self.view_map().contains_key(key@) && l@ == self.view_map()[key@],
                None => !self.view_map().contains_key(key@),
            },
    {
        let mut i: usize = 0;
        while i < self.entries.len()
            invariant
                self.wf(),
                i <= self.entries@.len(),
                forall|j: int| 0 <= j < i ==> (#[trigger] self.entries@[j]).key@ != key@,
            decreases self.entries@.len() - i,
        {
            if str_eq(self.entries[i].key.as_str(), key) {
                proof {
                    lemma_kv_map_contains(self.entries@, key@);
                    lemma_kv_map_index(self.entries@, i as int);
                }
                let e = &self.entries[i];
                return Some(Link { url: e.link.url.clone(), accesses: e.link.accesses });
            }
            i = i + 1;
        }
        proof {
            lemma_kv_map_contains(self.entries@, key@);
        }
        None
    }

    /// Delete a key: the reply says whether it was there.
    pub fn del(&mut self, key: &str) -> (r: bool)
        requires
            old(self).wf(),
        ensures
            final(self).wf(),
            final(self).count == old(self).count,
            r == old(self).view_map().contains_key(key@),
            r ==> final(self).view_map() == old(self).view_map().remove(key@),
            !r ==> final(self).view_map() == old(self).view_map(),
            !r ==> final(self).entries@ == old(self).entries@,
    {
        let mut i: usize = 0;
        while i < self.entries.len()
            invariant
                old(self).wf(),
                self == old(self),
                i <= self.entries@.len(),
                forall|j: int| 0 <= j < i ==> (#[trigger] self.entries@[j]).key@ != key@,
            decreases self.entries@.len() - i,
        {
            if str_eq(self.entries[i].key.as_str(), key) {
                proof {
                    lemma_kv_map_contains(self.entries@, key@);
                    lemma_kv_map_remove(self.entries@, i as int);
                }
                self.entries.remove(i);
                return true;
            }
            i = i + 1;
        }
        proof {
            lemma_kv_map_contains(self.entries@, key@);
        }
        false
    }

    /// Add one to the counter, saturating at the cap; the reply is the
    /// new value.
    pub fn incr_count(&mut self) -> (r: u64)
        requires
            old(self).wf(),
        ensures
            final(self).wf(),
            final(self).entries@ == old(self).entries@,
            final(self).view_map() == old(self).view_map(),
            final(self).count == if old(self).count < COUNT_CAP {
                old(self).count + 1
            } else {
                COUNT_CAP as int
            },
            r == final(self).count,
    {
        if self.count < COUNT_CAP {
            self.count = self.count + 1;
        }
        self.count
    }

    /// Take one from the counter, saturating at zero.
    pub fn decr_count(&mut self)
        requires
            old(self).wf(),
        ensures
            final(self).wf(),
            final(self).entries@ == old(self).entries@,
            final(self).view_map() == old(self).view_map(),
            final(self).count == if old(self).count > 0 {
                old(self).count - 1
            } else {
                0int
            },
    {
        if self.count > 0 {
            self.count = self.count - 1;
        }
    }
}

/// Membership in the keyed contents is membership among the entries.
proof fn lemma_kv_map_contains(entries: Seq<Entry>, k: Seq<char>)
    ensures
        kv_map(entries).contains_key(k) <==> exists|i: int|
            0 <= i < entries.len() && (#[trigger] entries[i]).key@ == k,
    decreases entries.len(),
{
    if entries.len() > 0 {
        lemma_kv_map_contains(entries.drop_last(), k);
        if kv_map(entries).contains_key(k) {
            if entries.last().key@ == k {
                assert(entries[entries.len() - 1].key@ == k);
            } else {
                let i = choose|i: int|
                    0 <= i < entries.drop_last().len() && (#[trigger] entries.drop_last()[i]).key@
                        == k;
                assert(entries[i].key@ == k);
            }
        }
        if exists|i: int| 0 <= i < entries.len() && (#[trigger] entries[i]).key@ == k {
            let i = choose|i: int| 0 <= i < entries.len() && (#[trigger] entries[i]).key@ == k;
            if i == entries.len() - 1 {
            } else {
                assert(entries.drop_last()[i].key@ == k);
            }
        }
    }
}

/// With distinct keys, the contents at an entry's key are its payload.
proof fn lemma_kv_map_index(entries: Seq<Entry>, i: int)
    requires
        0 <= i < entries.len(),
        forall|a: int, b: int|
            0 <= a < b < entries.len() ==> (#[trigger] entries[a]).key@ != (
            #[trigger] entries[b]).key@,
    ensures
        kv_map(entries).contains_key(entries[i].key@),
        kv_map(entries)[entries[i].key@] == entries[i].link@,
    decreases entries.len(),
{
    lemma_kv_map_contains(entries, entries[i].key@);
    if i == entries.len() - 1 {
    } else {
        assert(entries.drop_last()[i] == entries[i]);
        lemma_kv_map_index(entries.drop_last(), i);
        assert(entries.last().key@ != entries[i].key@);
    }
}

/// With distinct keys, removing an entry removes exactly its key.
proof fn lemma_kv_map_remove(entries: Seq<Entry>, i: int)
    requires
        0 <= i < entries.len(),
        forall|a: int, b: int|
            0 <= a < b < entries.len() ==> (#[trigger] entries[a]).key@ != (
            #[trigger] entries[b]).key@,
    ensures
        kv_map(entries.remove(i)) == kv_map(entries).remove(entries[i].key@),
        forall|a: int, b: int|
            0 <= a < b < entries.remove(i).len() ==> (#[trigger] entries.remove(i)[a]).key@ != (
            #[trigger] entries.remove(i)[b]).key@,
    decreases entries.len(),
{
    let k = entries[i].key@;
    lemma_kv_map_contains(entries, k);
    if i == entries.len() - 1 {
        assert(entries.remove(i) =~= entries.drop_last());
        lemma_kv_map_contains(entries.drop_last(), k);
        assert(!kv_map(entries.drop_last()).contains_key(k));
        assert(kv_map(entries).remove(k) =~= kv_map(entries.drop_last()));
    } else {
        lemma_kv_map_remove(entries.drop_last(), i);
        assert(entries.remove(i).drop_last() =~= entries.drop_last().remove(i));
        assert(entries.remove(i).last() == entries.last());
        assert(kv_map(entries.remove(i)) == kv_map(entries.drop_last().remove(i)).insert(
            entries.last().key@,
            entries.last().link@,
        ));
        assert(entries.last().key@ != k);
        assert(kv_map(entries.remove(i)) =~= kv_map(entries).remove(k));
    }
}

/// The errors of the link store.
#[derive(Debug, Clone, Copy, PartialEq, Eq, Structural)]
pub enum LinkError {
    /// The given target is not a URL.
    BadRequest,
    /// The target points back at this service.
    Conflict,
    /// No link under that identifier.
    NotFound,
    /// The store misbehaved, or no free identifier was found.
    Internal,
}

impl LinkError {
    /// The user-visible message of this error.
    pub fn message(&self) -> (r: &'static str)
        ensures
            *self == LinkError::BadRequest ==> r@ == "invalid url"@,
            *self == LinkError::Conflict ==> r@ == "cannot self link"@,
            *self == LinkError::NotFound ==> r@ == "link not found for id"@,
            *self == LinkError::Internal ==> r@ == "internal server error"@,
    {
        match self {
            LinkError::BadRequest => "invalid url",
            LinkError::Conflict => "cannot self link",
            LinkError::NotFound => "link not found for id",
            LinkError::Internal => "internal server error",
        }
    }

    /// The HTTP status this error maps to.
    pub fn status_code(&self) -> (r: u16)
        ensures
            *self == LinkError::BadRequest ==> r == 400,
            *self == LinkError::Conflict ==> r == 409,
            *self == LinkError::NotFound ==> r == 404,
            *self == LinkError::Internal ==> r == 500,
    {
        match self {
            LinkError::BadRequest => 400,
            LinkError::Conflict => 409,
            LinkError::NotFound => 404,
            LinkError::Internal => 500,
        }
    }
}

/// What `url::Url::parse` and `Url::host` make of a text: nothing when it
/// does not parse; the host's domain when the host is a DNS name; no
/// domain when the host is an address or absent.
pub uninterp spec fn url_domain_of(s: Seq<char>) -> Option<Option<Seq<char>>>;

/// A parsed host, reduced to what the self-link check needs.
#[derive(Debug)]
pub enum UrlHost {
    Invalid,
    Other,
    Domain(String),
}

/// Relies on `url::Url::parse` and `url::Url::host`: whether the text
/// parses as a URL, and its host when that host is a DNS domain. The
/// outcome depends on the text alone.
#[verifier::external_body]
fn parse_url_domain(s: &str) -> (r: UrlHost)
    ensures
        (r is Invalid) == (url_domain_of(s@) is None),
        (r is Domain) == (url_domain_of(s@) is Some && url_domain_of(s@)->0 is Some),
        r is Domain ==> r->Domain_0@ == url_domain_of(s@)->0->0,
{
    match url::Url::parse(s) {
        Ok(u) => match u.host() {
            Some(url::Host::Domain(d)) => UrlHost::Domain(String::from(d)),
            _ => UrlHost::Other,
        },
        Err(_) => UrlHost::Invalid,
    }
}

/// Links live a week unless the request says otherwise.
pub const DEFAULT_EXPIRATION: u64 = 60 * 60 * 24 * 7;

/// The time to live a request asks for.
pub open spec fn requested_ttl(expires: Option<u64>) -> u64 {
    match expires {
        Some(e) => e,
        None => DEFAULT_EXPIRATION,
    }
}

/// How many identifier collisions end a create.
pub const RETRY_LIMIT: usize = 32;

/// The store key for an identifier.
pub fn new_key(prefix: &str, id: &str) -> (r: String)
    ensures
        r@ == prefix@ + seq![':'] + id@,
{
    let mut key = String::new();
    append_str(&mut key, prefix);
    push_char(&mut key, ':');
    append_str(&mut key, id);
    proof {
        assert((Seq::<char>::empty() + prefix@).push(':') + id@ =~= prefix@ + seq![':'] + id@);
    }
    key
}

/// The store key of a link identifier.
pub open spec fn link_key(id: Seq<char>) -> Seq<char> {
    "link:"@ + id
}

/// The short-link store: its own domain, the key/value state, and the
/// random source for identifiers.
pub struct Store {
    pub host: String,
    pub kv: Kv,
    pub rng: rand_hc::Hc128Rng,
}

/// The keyed contents of a store.
pub open spec fn store_map(s: Store) -> Map<Seq<char>, LinkV> {
    s.kv.view_map()
}

/// What reading an identifier returns: the stored link, or not-found.
pub open spec fn get_spec(s: Store, id: Seq<char>) -> Result<LinkV, LinkError> {
    if store_map(s).contains_key(link_key(id)) {
        Ok(store_map(s)[link_key(id)])
    } else {
        Err(LinkError::NotFound)
    }
}

/// Check a create target: not a URL at all is rejected outright; a URL
/// whose host is this service's own domain may not be shortened.
pub fn check_target(url: &str, host: &str) -> (r: Result<(), LinkError>)
    ensures
        r == Err::<(), LinkError>(LinkError::BadRequest) <==> url_domain_of(url@) is None,
        r == Err::<(), LinkError>(LinkError::Conflict) <==> (url_domain_of(url@) is Some
            && url_domain_of(url@)->0 is Some && url_domain_of(url@)->0->0 == host@),
        r is Ok <==> (url_domain_of(url@) is Some && !(url_domain_of(url@)->0 is Some
            && url_domain_of(url@)->0->0 == host@)),
{
    match parse_url_domain(url) {
        UrlHost::Invalid => Err(LinkError::BadRequest),
        UrlHost::Domain(d) => {
            if str_eq(d.as_str(), host) {
                Err(LinkError::Conflict)
            } else {
                Ok(())
            }
        },
        UrlHost::Other => Ok(()),
    }
}

impl Store {
    /// A store over the given domain, state and random source.
    pub fn new(host: String, kv: Kv, rng: rand_hc::Hc128Rng) -> (r: Store)
        requires
            kv.wf(),
        ensures
            r.host == host,
            r.kv == kv,
            r.kv.wf(),
    {
        Store { host: host, kv: kv, rng: rng }
    }

    /// Create a link: reject targets that are no URL or that point back
    /// at this service; then take a fresh counter value, pick the
    /// identifier length for it, and write the link under fresh random
    /// identifiers until one is free, giving up after thirty-two
    /// collisions.
    pub fn create(&mut self, req: &CreateRequest) -> (r: Result<String, LinkError>)
        requires
            old(self).kv.wf(),
        ensures
            final(self).kv.wf(),
            final(self).host == old(self).host,
            r == Err::<String, LinkError>(LinkError::BadRequest) <==> url_domain_of(req.url@)
                is None,
            r == Err::<String, LinkError>(LinkError::Conflict) <==> (url_domain_of(req.url@)
                is Some && url_domain_of(req.url@)->0 is Some && url_domain_of(req.url@)->0->0
                == old(self).host@),
            (r is Err && (r->Err_0 == LinkError::BadRequest || r->Err_0 == LinkError::Conflict))
                ==> final(self).kv == old(self).kv,
            r is Ok ==> {
                let id = r->Ok_0@;
                let es = final(self).kv.entries@;
                &&& id.len() >= 3
                &&& id_size_ok(final(self).kv.count as int, 9, id.len() as int)
                &&& is_b64_str(id)
                &&& !old(self).kv.view_map().contains_key(link_key(id))
                &&& final(self).kv.view_map() == old(self).kv.view_map().insert(
                    link_key(id),
                    LinkV { url: req.url@, accesses: req.access_limit },
                )
                &&& es.len() == old(self).kv.entries@.len() + 1
                &&& es.subrange(0, es.len() - 1) == old(self).kv.entries@
                &&& es.last().key@ == link_key(id)
                &&& es.last().link@ == (LinkV { url: req.url@, accesses: req.access_limit })
                &&& es.last().ttl == requested_ttl(req.expires)
            },
            (r is Ok || r == Err::<String, LinkError>(LinkError::Internal)) ==> final(self).kv.count
                == if old(self).kv.count < COUNT_CAP {
                old(self).kv.count + 1
            } else {
                COUNT_CAP as int
            },
            r == Err::<String, LinkError>(LinkError::Internal) ==> final(self).kv.entries@
                == old(self).kv.entries@,
            r == Err::<String, LinkError>(LinkError::Internal) ==> exists|id: Seq<char>|
                id.len() >= 3 && is_b64_str(id) && #[trigger] old(self).kv.view_map().contains_key(
                    link_key(id),
                ),
    {
        match check_target(req.url.as_str(), self.host.as_str()) {
            Err(e) => {
                return Err(e);
            },
            Ok(()) => {},
        }
        let count = self.kv.incr_count();
        proof {
            assert(crate::strutil::pow10(9) == 1000000000) by {
                reveal_with_fuel(crate::strutil::pow10, 10);
            }
            assert((count as int) * (count as int - 1) * crate::strutil::pow10(9)
                < 0x2000000000000000000000000000000) by (nonlinear_arith)
                requires
                    count <= 1000000000000,
                    crate::strutil::pow10(9) == 1000000000,
            ;
        }
        let size = calc_id_size(count, 9);
        let ttl = match req.expires {
            Some(e) => e,
            None => DEFAULT_EXPIRATION,
        };
        let mut collisions: usize = 0;
        loop
            invariant
                collisions < RETRY_LIMIT,
                url_domain_of(req.url@) is Some,
                !(url_domain_of(req.url@)->0 is Some && url_domain_of(req.url@)->0->0 == old(
                    self,
                ).host@),
                self.kv.wf(),
                self.host == old(self).host,
                self.kv.entries@ == old(self).kv.entries@,
                self.kv.count == if old(self).kv.count < COUNT_CAP {
                    old(self).kv.count + 1
                } else {
                    COUNT_CAP as int
                },
                size >= 3,
                id_size_ok(self.kv.count as int, 9, size as int),
                ttl == requested_ttl(req.expires),
            decreases RETRY_LIMIT - collisions,
        {
            let id = gen_str_id(size, &mut self.rng);
            let key = new_key("link", &id.as_str());
            proof {
                reveal_strlit("link");
                reveal_strlit("link:");
                assert("link"@.push(':') =~= "link:"@);
                assert("link"@ + seq![':'] + id@ =~= "link"@.push(':') + id@);
                assert(key@ == link_key(id@));
            }
            let link = Link { url: req.url.clone(), accesses: req.access_limit };
            let ghost pre = self.kv.entries@;
            if self.kv.set_nx_ex(key, link, ttl) {
                proof {
                    assert(self.kv.entries@.subrange(0, self.kv.entries@.len() - 1) =~= pre);
                }
                return Ok(id);
            }
            collisions = collisions + 1;
            if collisions == RETRY_LIMIT {
                proof {
                    assert(old(self).kv.view_map().contains_key(link_key(id@)));
                    assert(id@.len() >= 3 && is_b64_str(id@));
                }
                return Err(LinkError::Internal);
            }
        }
    }

    /// Read a link by its identifier.
    pub fn get(&self, id: &str) -> (r: Result<Link, LinkError>)
        requires
            self.kv.wf(),
        ensures
            match r {
                Ok(l) => get_spec(*self, id@) == Ok::<LinkV, LinkError>(l@),
                Err(e) => get_spec(*self, id@) == Err::<LinkV, LinkError>(e),
            },
    {
        let key = new_key("link", id);
        proof {
            reveal_strlit("link");
            reveal_strlit("link:");
            assert("link"@.push(':') =~= "link:"@);
            assert("link"@ + seq![':'] + id@ =~= "link"@.push(':') + id@);
            assert(key@ == link_key(id@));
        }
        match self.kv.get(key.as_str()) {
            Some(l) => Ok(l),
            None => Err(LinkError::NotFound),
        }
    }

    /// Delete a link by its identifier; a hit also takes one from the
    /// counter.
    pub fn del(&mut self, id: &str) -> (r: Result<(), LinkError>)
        requires
            old(self).kv.wf(),
        ensures
            final(self).kv.wf(),
            r is Ok <==> old(self).kv.view_map().contains_key(link_key(id@)),
            r is Err ==> r->Err_0 == LinkError::NotFound && final(self).kv.view_map() == old(
                self,
            ).kv.view_map() && final(self).kv.count == old(self).kv.count,
            r is Ok ==> final(self).kv.view_map() == old(self).kv.view_map().remove(link_key(id@))
                && final(self).kv.count == if old(self).kv.count > 0 {
                old(self).kv.count - 1
            } else {
                0int
            },
    {
        let key = new_key("link", id);
        proof {
            reveal_strlit("link");
            reveal_strlit("link:");
            assert("link"@.push(':') =~= "link:"@);
            assert("link"@ + seq![':'] + id@ =~= "link"@.push(':') + id@);
            assert(key@ == link_key(id@));
        }
        if self.kv.del(key.as_str()) {
            self.kv.decr_count();
            Ok(())
        } else {
            Err(LinkError::NotFound)
        }
    }

    /// List every stored link with its key, in store order; the time to
    /// live is not fetched.
    pub fn list(&self) -> (r: Vec<LinkInfo>)
        requires
            self.kv.wf(),
        ensures
            r@.len() == list_spec(self.kv.entries@).len(),
            forall|i: int|
                0 <= i < r@.len() ==> (#[trigger] r@[i]).key@ == list_spec(self.kv.entries@)[i].0
                    && r@[i].link@ == list_spec(self.kv.entries@)[i].1 && r@[i].expires is None,
    {
        let mut out: Vec<LinkInfo> = Vec::new();
        let mut i: usize = 0;
        proof {
            assert(self.kv.entries@.subrange(0, 0) =~= Seq::<Entry>::empty());
        }
        while i < self.kv.entries.len()
            invariant
                i <= self.kv.entries@.len(),
                out@.len() == list_spec(self.kv.entries@.subrange(0, i as int)).len(),
                forall|j: int|
                    0 <= j < out@.len() ==> (#[trigger] out@[j]).key@ == list_spec(
                        self.kv.entries@.subrange(0, i as int),
                    )[j].0 && out@[j].link@ == list_spec(
                        self.kv.entries@.subrange(0, i as int),
                    )[j].1 && out@[j].expires is None,
            decreases self.kv.entries@.len() - i,
        {
            proof {
                let pre = self.kv.entries@.subrange(0, i as int);
                let cur = self.kv.entries@.subrange(0, i + 1);
                assert(cur.drop_last() =~= pre);
                assert(cur.last() == self.kv.entries@[i as int]);
            }
            let e = &self.kv.entries[i];
            if crate::strutil::str_starts_with(e.key.as_str(), "link:") {
                out.push(
                    LinkInfo {
                        link: Link { url: e.link.url.clone(), accesses: e.link.accesses },
                        key: e.key.clone(),
                        expires: None,
                    },
                );
            }
            i = i + 1;
        }
        proof {
            assert(self.kv.entries@.subrange(0, self.kv.entries@.len() as int)
                =~= self.kv.entries@);
        }
        out
    }
}

/// The listed pairs: the entries whose key starts with the link prefix,
/// in order.
pub open spec fn list_spec(entries: Seq<Entry>) -> Seq<(Seq<char>, LinkV)>
    decreases entries.len(),
{
    if entries.len() == 0 {
        Seq::<(Seq<char>, LinkV)>::empty()
    } else {
        let rest = list_spec(entries.drop_last());
        let e = entries.last();
        if e.key@.len() >= "link:"@.len() && e.key@.subrange(0, "link:"@.len() as int)
            == "link:"@ {
            rest.push((e.key@, e.link@))
        } else {
            rest
        }
    }
}

/// Every link written by `create` is read back by `get` with the same
/// URL, while its key lives.
pub proof fn lemma_create_then_get(old_s: Store, new_s: Store, url: Seq<char>, acc: Option<u32>, id: Seq<char>)
    requires
        store_map(new_s) == store_map(old_s).insert(
            link_key(id),
            LinkV { url: url, accesses: acc },
        ),
    ensures
        get_spec(new_s, id) == Ok::<LinkV, LinkError>(LinkV { url: url, accesses: acc }),
{
    assert(store_map(new_s).contains_key(link_key(id)));
}

} // verus!
