//! Package registry lookups: which registry a name belongs to, what its
//! answer says, and the one-hour cache of answers.
use vstd::prelude::*;
use crate::json::{Json, JsonV, jview, get, get_member, str_of};
use crate::text::{chars_of, contains, lower_text, owned, push_str, starts_with, str_contains, str_eq,
    str_starts_with, string_of, to_lowercase};

verus! {

/// Parameters of `package_info`.
pub struct PackageInfoParams {
    pub name: String,
    /// "crates" | "npm" | "pypi"
    pub registry: Option<String>,
    pub version: Option<String>,
}

/// Result of `package_info`.
pub struct PackageInfoResult {
    /// "ok" | "NOT_FOUND" | "NETWORK_ERROR"
    pub status: String,
    pub registry: String,
    pub name: String,
    pub version: String,
    pub description: Option<String>,
    pub homepage: Option<String>,
    pub cached: bool,
}

pub type PackageView = (Seq<char>, Seq<char>, Seq<char>, Seq<char>, Option<Seq<char>>, Option<Seq<char>>, bool);

pub open spec fn opt_chars(o: Option<String>) -> Option<Seq<char>> {
    match o {
        Some(s) => Some(s@),
        None => None,
    }
}

pub open spec fn package_view(r: PackageInfoResult) -> PackageView {
    (r.status@, r.registry@, r.name@, r.version@, opt_chars(r.description), opt_chars(r.homepage), r.cached)
}

fn copy_opt(o: &Option<String>) -> (r: Option<String>)
    ensures
        opt_chars(r) == opt_chars(*o),
{
    match o {
        Some(s) => Some(s.clone()),
        None => None,
    }
}

/// A copy of a result.
pub fn copy_result(r: &PackageInfoResult) -> (c: PackageInfoResult)
    ensures
        package_view(c) == package_view(*r),
{
    PackageInfoResult {
        status: r.status.clone(),
        registry: r.registry.clone(),
        name: r.name.clone(),
        version: r.version.clone(),
        description: copy_opt(&r.description),
        homepage: copy_opt(&r.homepage),
        cached: r.cached,
    }
}

/// The registry asked: the hint in lower case, else npm for a scoped or
/// slashed name, else crates.io.
pub open spec fn registry_for(name: Seq<char>, hint: Option<Seq<char>>) -> Seq<char> {
    match hint {
        Some(h) => lower_text(h),
        None => if starts_with(name, "@"@) || contains(name, "/"@) {
            "npm"@
        } else {
            "crates"@
        },
    }
}

pub fn detect_registry(name: &str, hint: Option<&str>) -> (r: String)
    ensures
        r@ == registry_for(
            name@,
            match hint {
                Some(h) => Some(h@),
                None => None,
            },
        ),
{
    match hint {
        Some(h) => to_lowercase(h),
        None => {
            if str_starts_with(name, "@") || str_contains(name, "/") {
                owned("npm")
            } else {
                owned("crates")
            }
        },
    }
}

/// The key of the cache: "registry:name".
pub open spec fn cache_key_of(registry: Seq<char>, name: Seq<char>) -> Seq<char> {
    registry + ":"@ + name
}

pub fn cache_key(registry: &str, name: &str) -> (r: String)
    ensures
        r@ == cache_key_of(registry@, name@),
{
    let mut v = chars_of(registry);
    push_str(&mut v, ":");
    push_str(&mut v, name);
    string_of(&v)
}

/// The registries asked.
#[derive(Clone, Copy, PartialEq, Eq, Structural)]
pub enum Registry {
    Crates,
    Npm,
    Pypi,
}

/// The registry a name picks: "npm", "pypi", and crates.io for any other.
pub open spec fn registry_kind_of(r: Seq<char>) -> Registry {
    if r == "npm"@ {
        Registry::Npm
    } else if r == "pypi"@ {
        Registry::Pypi
    } else {
        Registry::Crates
    }
}

pub fn registry_kind(registry: &str) -> (k: Registry)
    ensures
        k == registry_kind_of(registry@),
{
    if str_eq(registry, "npm") {
        Registry::Npm
    } else if str_eq(registry, "pypi") {
        Registry::Pypi
    } else {
        Registry::Crates
    }
}

pub open spec fn registry_url_of(k: Registry, name: Seq<char>) -> Seq<char> {
    match k {
        Registry::Crates => "https://crates.io/api/v1/crates/"@ + name,
        Registry::Npm => "https://registry.npmjs.org/"@ + name,
        Registry::Pypi => "https://pypi.org/pypi/"@ + name + "/json"@,
    }
}

/// The address a registry is asked at for `name`.
pub fn registry_url(k: Registry, name: &str) -> (r: String)
    ensures
        r@ == registry_url_of(k, name@),
{
    match k {
        Registry::Crates => {
            let mut v = chars_of("https://crates.io/api/v1/crates/");
            push_str(&mut v, name);
            string_of(&v)
        },
        Registry::Npm => {
            let mut v = chars_of("https://registry.npmjs.org/");
            push_str(&mut v, name);
            string_of(&v)
        },
        Registry::Pypi => {
            let mut v = chars_of("https://pypi.org/pypi/");
            push_str(&mut v, name);
            push_str(&mut v, "/json");
            string_of(&v)
        },
    }
}

pub open spec fn registry_label(k: Registry) -> Seq<char> {
    match k {
        Registry::Crates => "crates"@,
        Registry::Npm => "npm"@,
        Registry::Pypi => "pypi"@,
    }
}

fn registry_name(k: Registry) -> (r: String)
    ensures
        r@ == registry_label(k),
{
    proof {
        reveal_strlit("crates");
        reveal_strlit("npm");
        reveal_strlit("pypi");
    }
    match k {
        Registry::Crates => owned("crates"),
        Registry::Npm => owned("npm"),
        Registry::Pypi => owned("pypi"),
    }
}

/// The answer for a package the registry does not know.
pub fn not_found(k: Registry, name: &str) -> (r: PackageInfoResult)
    ensures
        package_view(r) == ("NOT_FOUND"@, registry_label(k), name@, Seq::<char>::empty(), None::<Seq<char>>, None::<
            Seq<char>,
        >, false),
{
    proof {
        reveal_strlit("NOT_FOUND");
        reveal_strlit("");
    }
    PackageInfoResult {
        status: owned("NOT_FOUND"),
        registry: registry_name(k),
        name: owned(name),
        version: owned(""),
        description: None,
        homepage: None,
        cached: false,
    }
}

/// `value[k]`: the member, or null.
pub open spec fn idx(v: JsonV, k: Seq<char>) -> JsonV {
    match get(v, k) {
        Some(x) => x,
        None => JsonV::Null,
    }
}

pub open spec fn str_at(v: JsonV) -> Option<Seq<char>> {
    match v {
        JsonV::Str(s) => Some(s),
        _ => None,
    }
}

/// What a registry's answer says of a package: its latest version
/// ("unknown" where missing), description and home page.
pub open spec fn answer_fields(k: Registry, j: JsonV) -> (Seq<char>, Option<Seq<char>>, Option<Seq<char>>) {
    match k {
        Registry::Crates => {
            let c = idx(j, "crate"@);
            (
                match str_at(idx(c, "newest_version"@)) {
                    Some(s) => s,
                    None => "unknown"@,
                },
                str_at(idx(c, "description"@)),
                match str_at(idx(c, "homepage"@)) {
                    Some(s) => Some(s),
                    None => str_at(idx(c, "repository"@)),
                },
            )
        },
        Registry::Npm => (
            match str_at(idx(idx(j, "dist-tags"@), "latest"@)) {
                Some(s) => s,
                None => "unknown"@,
            },
            str_at(idx(j, "description"@)),
            str_at(idx(j, "homepage"@)),
        ),
        Registry::Pypi => {
            let info = idx(j, "info"@);
            (
                match str_at(idx(info, "version"@)) {
                    Some(s) => s,
                    None => "unknown"@,
                },
                str_at(idx(info, "summary"@)),
                match str_at(idx(info, "home_page"@)) {
                    Some(s) => if s.len() > 0 {
                        Some(s)
                    } else {
                        None
                    },
                    None => None,
                },
            )
        },
    }
}

fn member_str<'a>(v: Option<&'a Json>, k: &str) -> (r: Option<&'a str>)
    ensures
        match v {
            Some(x) => match r {
                Some(s) => str_at(idx(jview(*x), k@)) == Some(s@),
                None => str_at(idx(jview(*x), k@)) is None,
            },
            None => r is None,
        },
{
    match v {
        Some(x) => str_of(get_member(x, k)),
        None => None,
    }
}

fn member<'a>(v: Option<&'a Json>, k: &str) -> (r: Option<&'a Json>)
    ensures
        match v {
            Some(x) => match r {
                Some(y) => idx(jview(*x), k@) == jview(*y),
                None => idx(jview(*x), k@) == JsonV::Null,
            },
            None => r is None,
        },
{
    match v {
        Some(x) => match get_member(x, k) {
            Some(y) => Some(y),
            None => None,
        },
        None => None,
    }
}

fn str_or_unknown(s: Option<&str>) -> (r: String)
    ensures
        r@ == match s {
            Some(t) => t@,
            None => "unknown"@,
        },
{
    match s {
        Some(t) => owned(t),
        None => {
            proof {
                reveal_strlit("unknown");
            }
            owned("unknown")
        },
    }
}

fn opt_owned(s: Option<&str>) -> (r: Option<String>)
    ensures
        opt_chars(r) == match s {
            Some(t) => Some(t@),
            None => None,
        },
{
    match s {
        Some(t) => Some(owned(t)),
        None => None,
    }
}

/// The answer built from a registry's reply for `name`.
pub fn package_from_answer(k: Registry, name: &str, answer: &Json) -> (r: PackageInfoResult)
    ensures
        package_view(r) == ("ok"@, registry_label(k), name@, answer_fields(k, jview(*answer)).0, answer_fields(
            k,
            jview(*answer),
        ).1, answer_fields(k, jview(*answer)).2, false),
{
    let root = Some(answer);
    let (version, description, homepage) = match k {
        Registry::Crates => {
            let c = member(root, "crate");
            let c_eff: Option<&Json> = c;
            proof {
                if c is None {
                    assert(idx(JsonV::Null, "newest_version"@) == JsonV::Null);
                }
            }
            let v = str_or_unknown(member_str_or_null(c_eff, "newest_version"));
            let d = opt_owned(member_str_or_null(c_eff, "description"));
            let h = match member_str_or_null(c_eff, "homepage") {
                Some(t) => Some(owned(t)),
                None => opt_owned(member_str_or_null(c_eff, "repository")),
            };
            (v, d, h)
        },
        Registry::Npm => {
            let tags = member(root, "dist-tags");
            let v = str_or_unknown(member_str_or_null(tags, "latest"));
            let d = opt_owned(member_str(root, "description"));
            let h = opt_owned(member_str(root, "homepage"));
            (v, d, h)
        },
        Registry::Pypi => {
            let info = member(root, "info");
            let v = str_or_unknown(member_str_or_null(info, "version"));
            let d = opt_owned(member_str_or_null(info, "summary"));
            let h = match member_str_or_null(info, "home_page") {
                Some(t) => {
                    let tc = chars_of(t);
                    if tc.len() > 0 {
                        Some(owned(t))
                    } else {
                        None
                    }
                },
                None => None,
            };
            (v, d, h)
        },
    };
    proof {
        reveal_strlit("ok");
    }
    PackageInfoResult {
        status: owned("ok"),
        registry: registry_name(k),
        name: owned(name),
        version,
        description,
        homepage,
        cached: false,
    }
}

/// `value[k].as_str()` where a missing `value` stands for null.
fn member_str_or_null<'a>(v: Option<&'a Json>, k: &str) -> (r: Option<&'a str>)
    ensures
        match v {
            Some(x) => match r {
                Some(s) => str_at(idx(jview(*x), k@)) == Some(s@),
                None => str_at(idx(jview(*x), k@)) is None,
            },
            None => r is None && str_at(idx(JsonV::Null, k@)) is None,
        },
{
    member_str(v, k)
}

/// How long an answer stays in the cache, in milliseconds.
pub const CACHE_TTL_MS: u64 = 3600000;

/// An answer kept, with when it was fetched.
pub struct CachedPackage {
    pub key: String,
    pub result: PackageInfoResult,
    pub fetched_at_ms: u64,
}

/// Answers by key; each key once.
pub struct PackageCache {
    pub entries: Vec<CachedPackage>,
}

/// An entry is fresh while less than the TTL has passed since it was
/// fetched (no time has passed for a clock that reads earlier).
pub open spec fn fresh(fetched_at: u64, now: u64) -> bool {
    now < fetched_at || now - fetched_at < CACHE_TTL_MS
}

impl PackageCache {
    pub open spec fn wf(&self) -> bool {
        forall|i: int, j: int|
            0 <= i < j < self.entries@.len() ==> #[trigger] self.entries@[i].key@ != #[trigger] self.entries@[j].key@
    }

    /// The answers kept, with their fetch times, by key.
    pub open spec fn view(&self) -> Map<Seq<char>, (PackageView, u64)> {
        Map::new(
            |k: Seq<char>| exists|i: int| 0 <= i < self.entries@.len() && #[trigger] self.entries@[i].key@ == k,
            |k: Seq<char>|
                {
                    let i = choose|i: int| 0 <= i < self.entries@.len() && #[trigger] self.entries@[i].key@ == k;
                    (package_view(self.entries@[i].result), self.entries@[i].fetched_at_ms)
                },
        )
    }

    pub fn new() -> (c: PackageCache)
        ensures
            c.wf(),
            c@ == Map::<Seq<char>, (PackageView, u64)>::empty(),
    {
        let c = PackageCache { entries: Vec::new() };
        assert(c@ =~= Map::<Seq<char>, (PackageView, u64)>::empty());
        c
    }

    fn find(&self, key: &str) -> (r: Option<usize>)
        requires
            self.wf(),
        ensures
            match r {
                Some(i) => i < self.entries@.len() && self.entries@[i as int].key@ == key@,
                None => forall|j: int| 0 <= j < self.entries@.len() ==> #[trigger] self.entries@[j].key@ != key@,
            },
    {
        let mut i: usize = 0;
        while i < self.entries.len()
            invariant
                i <= self.entries@.len(),
                forall|j: int| 0 <= j < i ==> #[trigger] self.entries@[j].key@ != key@,
            decreases self.entries.len() - i,
        {
            if str_eq(self.entries[i].key.as_str(), key) {
                return Some(i);
            }
            i = i + 1;
        }
        None
    }

    /// The answer kept under `key` while it is fresh, marked as cached.
    pub fn lookup(&self, key: &str, now_ms: u64) -> (r: Option<PackageInfoResult>)
        requires
            self.wf(),
        ensures
            match r {
                Some(p) => lookup_spec(self@, key@, now_ms) == Some(package_view(p)),
                None => lookup_spec(self@, key@, now_ms) is None,
            },
    {
        match self.find(key) {
            Some(i) => {
                let e = &self.entries[i];
                proof {
                    assert(self@.contains_key(key@));
                    let j = choose|j: int| 0 <= j < self.entries@.len() && #[trigger] self.entries@[j].key@ == key@;
                    assert(j == i as int);
                }
                if e.fetched_at_ms > now_ms || now_ms - e.fetched_at_ms < CACHE_TTL_MS {
                    let mut c = copy_result(&e.result);
                    c.cached = true;
                    Some(c)
                } else {
                    None
                }
            },
            None => {
                proof {
                    assert(!self@.contains_key(key@));
                }
                None
            },
        }
    }

    /// Keeps `result` under `key`, fetched at `now_ms`, in place of what was
    /// kept there.
    pub fn store(&mut self, key: String, result: PackageInfoResult, now_ms: u64)
        requires
            old(self).wf(),
        ensures
            final(self).wf(),
            final(self)@ == old(self)@.insert(key@, (package_view(result), now_ms)),
    {
        let ghost k = key@;
        let ghost pv = package_view(result);
        let ghost before = self.entries@;
        match self.find(key.as_str()) {
            Some(i) => {
                self.entries.set(i, CachedPackage { key, result, fetched_at_ms: now_ms });
                proof {
                    assert forall|x: Seq<char>| #![trigger self@.contains_key(x)] self@.contains_key(x) <==> old(self)@.insert(k, (pv, now_ms)).contains_key(x) by {
                        if x == k {
                            assert(self.entries@[i as int].key@ == x);
                        } else if old(self)@.contains_key(x) {
                            let j = choose|j: int| 0 <= j < before.len() && #[trigger] before[j].key@ == x;
                            assert(self.entries@[j].key@ == x);
                        } else if self@.contains_key(x) {
                            let j = choose|j: int| 0 <= j < self.entries@.len() && #[trigger] self.entries@[j].key@ == x;
                            assert(before[j].key@ == x);
                        }
                    }
                    assert forall|x: Seq<char>| #[trigger] self@.contains_key(x) implies self@[x] == old(self)@.insert(
                        k,
                        (pv, now_ms),
                    )[x] by {
                        let j = choose|j: int| 0 <= j < self.entries@.len() && #[trigger] self.entries@[j].key@ == x;
                        if x == k {
                            assert(j == i as int);
                        } else {
                            assert(before[j].key@ == x);
                            let j2 = choose|j2: int| 0 <= j2 < before.len() && #[trigger] before[j2].key@ == x;
                            assert(j2 == j);
                        }
                    }
                    assert(self@ =~= old(self)@.insert(k, (pv, now_ms)));
                }
            },
            None => {
                self.entries.push(CachedPackage { key, result, fetched_at_ms: now_ms });
                proof {
                    let n = before.len() as int;
                    assert forall|x: Seq<char>| #![trigger self@.contains_key(x)] self@.contains_key(x) <==> old(self)@.insert(k, (pv, now_ms)).contains_key(x) by {
                        if x == k {
                            assert(self.entries@[n].key@ == x);
                        } else if old(self)@.contains_key(x) {
                            let j = choose|j: int| 0 <= j < before.len() && #[trigger] before[j].key@ == x;
                            assert(self.entries@[j].key@ == x);
                        } else if self@.contains_key(x) {
                            let j = choose|j: int| 0 <= j < self.entries@.len() && #[trigger] self.entries@[j].key@ == x;
                            assert(before[j].key@ == x);
                        }
                    }
                    assert forall|x: Seq<char>| #[trigger] self@.contains_key(x) implies self@[x] == old(self)@.insert(
                        k,
                        (pv, now_ms),
                    )[x] by {
                        let j = choose|j: int| 0 <= j < self.entries@.len() && #[trigger] self.entries@[j].key@ == x;
                        if x == k {
                            assert(j == n);
                        } else {
                            assert(before[j].key@ == x);
                            let j2 = choose|j2: int| 0 <= j2 < before.len() && #[trigger] before[j2].key@ == x;
                            assert(j2 == j);
                        }
                    }
                    assert(self@ =~= old(self)@.insert(k, (pv, now_ms)));
                }
            },
        }
    }
}

/// A view with `cached` set.
pub open spec fn cached_view(v: PackageView) -> PackageView {
    (v.0, v.1, v.2, v.3, v.4, v.5, true)
}

/// A lookup of the cache by its view: the kept answer, marked as cached,
/// while it is fresh.
pub open spec fn lookup_spec(m: Map<Seq<char>, (PackageView, u64)>, key: Seq<char>, now: u64) -> Option<PackageView> {
    if m.contains_key(key) && fresh(m[key].1, now) {
        Some(cached_view(m[key].0))
    } else {
        None
    }
}

/// What is stored is what a lookup gives back (marked as cached) until the
/// hour is over, and storing under one key leaves the others as they were.
pub proof fn law_cache_read_after_write(
    m: Map<Seq<char>, (PackageView, u64)>,
    key: Seq<char>,
    other: Seq<char>,
    v: PackageView,
    at: u64,
    now: u64,
)
    ensures
        fresh(at, now) ==> lookup_spec(m.insert(key, (v, at)), key, now) == Some(cached_view(v)),
        !fresh(at, now) ==> lookup_spec(m.insert(key, (v, at)), key, now) is None,
        other != key ==> lookup_spec(m.insert(key, (v, at)), other, now) == lookup_spec(m, other, now),
{
}

/// The first step of `package_info`: the registry asked, the cache key,
/// and the kept answer where a fresh one is there.
pub fn package_request(cache: &PackageCache, params: &PackageInfoParams, now_ms: u64) -> (r: (
    String,
    String,
    Option<PackageInfoResult>,
))
    requires
        cache.wf(),
    ensures
        r.0@ == registry_for(params.name@, opt_chars(params.registry)),
        r.1@ == cache_key_of(r.0@, params.name@),
        match r.2 {
            Some(p) => lookup_spec(cache@, r.1@, now_ms) == Some(package_view(p)),
            None => lookup_spec(cache@, r.1@, now_ms) is None,
        },
{
    let hint: Option<&str> = match &params.registry {
        Some(h) => Some(h.as_str()),
        None => None,
    };
    let registry = detect_registry(params.name.as_str(), hint);
    let key = cache_key(registry.as_str(), params.name.as_str());
    let hit = cache.lookup(key.as_str(), now_ms);
    (registry, key, hit)
}

/// The answer of registry `k` for `name` from a reply with HTTP `status`.
pub open spec fn package_answer_view(k: Registry, name: Seq<char>, status: u16, reply: JsonV) -> PackageView {
    if status == 404 {
        ("NOT_FOUND"@, registry_label(k), name, Seq::<char>::empty(), None::<Seq<char>>, None::<Seq<char>>, false)
    } else {
        ("ok"@, registry_label(k), name, answer_fields(k, reply).0, answer_fields(k, reply).1, answer_fields(k, reply).2, false)
    }
}

/// The string at `reply[a][b]`, if there is one.
pub open spec fn string_at_path(reply: JsonV, a: Seq<char>, b: Seq<char>) -> Option<Seq<char>> {
    match get(reply, a) {
        Some(inner) => match get(inner, b) {
            Some(JsonV::Str(v)) => Some(v),
            _ => None,
        },
        None => None,
    }
}

/// The version an answer reports is the registry's latest: for npm the
/// string at `dist-tags.latest`, for crates.io at `crate.newest_version`,
/// for PyPI at `info.version`; "unknown" where the reply has none.
pub proof fn law_version_is_the_latest(k: Registry, name: Seq<char>, status: u16, reply: JsonV, r: PackageInfoResult)
    requires
        package_view(r) == package_answer_view(k, name, status, reply),
        status != 404,
    ensures
        r.status@ == "ok"@,
        ({
            let at = match k {
                Registry::Npm => string_at_path(reply, "dist-tags"@, "latest"@),
                Registry::Crates => string_at_path(reply, "crate"@, "newest_version"@),
                Registry::Pypi => string_at_path(reply, "info"@, "version"@),
            };
            r.version@ == match at {
                Some(v) => v,
                None => "unknown"@,
            }
        }),
{
}

/// A 404 reply answers that the package was not found, with no version.
pub proof fn law_missing_package_not_found(k: Registry, name: Seq<char>, reply: JsonV, r: PackageInfoResult)
    requires
        package_view(r) == package_answer_view(k, name, 404, reply),
    ensures
        r.status@ == "NOT_FOUND"@,
        r.version@.len() == 0,
        r.name@ == name,
{
}

/// The answer of a registry for `name`: not found on a 404, else what its
/// reply says.
pub fn package_answer(k: Registry, name: &str, status: u16, reply: &Json) -> (r: PackageInfoResult)
    ensures
        package_view(r) == package_answer_view(k, name@, status, jview(*reply)),
{
    if status == 404 {
        not_found(k, name)
    } else {
        package_from_answer(k, name, reply)
    }
}

} // verus!
