//! Package queries against a verified index: which file, with which expected
//! digest, serves a requested app, version and ABI.
use vstd::prelude::*;
use crate::digest::{decode_hex_str, hex_text, sha256_digest, sha256_of};
use crate::manifest::bytes_equal;
use crate::error::Error;
use crate::json::{get, text_of, Json};
use crate::text::str_equal;

verus! {

/// The characters of an optional string.
pub open spec fn opt_chars(o: Option<String>) -> Option<Seq<char>> {
    match o {
        Some(s) => Some(s@),
        None => None,
    }
}

/// Whether `j` is an array that holds the string `s`.
pub open spec fn lists_text(j: Option<Json>, s: Seq<char>) -> bool {
    match j {
        Some(Json::Array(a)) => exists|k: int| 0 <= k < a@.len() && text_of(Some(#[trigger] a@[k])) == Some(s),
        _ => false,
    }
}

/// Whether an ABI list admits the requested ABI; without a request every
/// list does.
pub open spec fn abi_admits(list: Option<Json>, arch: Option<Seq<char>>) -> bool {
    match arch {
        Some(a) => lists_text(list, a),
        None => true,
    }
}

/// Index shape of a list of versions, latest first: the file name and
/// digest that entry `e` offers for the request, if it matches it.
pub open spec fn listed_candidate(e: Json, version: Option<Seq<char>>, arch: Option<Seq<char>>) -> Option<
    (Seq<char>, Seq<u8>),
> {
    match (text_of(get(e, "versionName"@)), text_of(get(e, "apkName"@)), text_of(get(e, "hash"@))) {
        (Some(name), Some(file), Some(hash)) => if (version is None || version == Some(name))
            && hex_text(hash) is Some && abi_admits(get(e, "nativecode"@), arch) {
            Some((file, hex_text(hash)->Some_0))
        } else {
            None
        },
        _ => None,
    }
}

pub open spec fn first_listed_at(a: Seq<Json>, version: Option<Seq<char>>, arch: Option<Seq<char>>, i: int) -> bool {
    0 <= i < a.len() && listed_candidate(a[i], version, arch) is Some && forall|j: int|
        0 <= j < i ==> (#[trigger] listed_candidate(a[j], version, arch)) is None
}

/// The first entry of a version list that matches the request.
pub open spec fn pick_listed(a: Seq<Json>, version: Option<Seq<char>>, arch: Option<Seq<char>>) -> Option<
    (Seq<char>, Seq<u8>),
> {
    if exists|i: int| first_listed_at(a, version, arch, i) {
        listed_candidate(a[choose|i: int| first_listed_at(a, version, arch, i)], version, arch)
    } else {
        None
    }
}

/// Index shape of a map of versions: the manifest of version record `v`, and
/// the name and digest text of its file.
pub open spec fn version_record(v: Json) -> Option<(Json, Seq<char>, Seq<char>)> {
    match (get(v, "manifest"@), get(v, "file"@)) {
        (Some(m), Some(f)) => match (text_of(get(f, "name"@)), text_of(get(f, "sha256"@))) {
            (Some(name), Some(sha)) => Some((m, name, sha)),
            _ => None,
        },
        _ => None,
    }
}

/// The file name and digest that version record `v` offers for a request of
/// version `version`, if it matches it.
pub open spec fn named_candidate(v: Json, version: Seq<char>, arch: Option<Seq<char>>) -> Option<
    (Seq<char>, Seq<u8>),
> {
    match version_record(v) {
        Some((m, name, sha)) => if text_of(get(m, "versionName"@)) == Some(version) && hex_text(
            sha,
        ) is Some && abi_admits(get(m, "nativecode"@), arch) {
            Some((name, hex_text(sha)->Some_0))
        } else {
            None
        },
        None => None,
    }
}

/// The version code, file name and digest text of version record `v`, where
/// it has a version code and admits the ABI.
pub open spec fn coded_candidate(v: Json, arch: Option<Seq<char>>) -> Option<(u64, Seq<char>, Seq<char>)> {
    match version_record(v) {
        Some((m, name, sha)) => match get(m, "versionCode"@) {
            Some(Json::Number(Some(code))) => if abi_admits(get(m, "nativecode"@), arch) {
                Some((code, name, sha))
            } else {
                None
            },
            _ => None,
        },
        None => None,
    }
}

pub open spec fn first_named_at(vs: Seq<(String, Json)>, version: Seq<char>, arch: Option<Seq<char>>, i: int) -> bool {
    0 <= i < vs.len() && named_candidate(vs[i].1, version, arch) is Some && forall|j: int|
        0 <= j < i ==> (#[trigger] named_candidate(vs[j].1, version, arch)) is None
}

/// The first version record that has the requested version.
pub open spec fn pick_named(vs: Seq<(String, Json)>, version: Seq<char>, arch: Option<Seq<char>>) -> Option<
    (Seq<char>, Seq<u8>),
> {
    if exists|i: int| first_named_at(vs, version, arch, i) {
        named_candidate(vs[choose|i: int| first_named_at(vs, version, arch, i)].1, version, arch)
    } else {
        None
    }
}

/// Whether record `i` has the highest positive version code, and no earlier
/// record has the same code.
pub open spec fn latest_at(vs: Seq<(String, Json)>, arch: Option<Seq<char>>, i: int) -> bool {
    0 <= i < vs.len() && coded_candidate(vs[i].1, arch) is Some && coded_candidate(vs[i].1, arch)->Some_0.0
        > 0 && (forall|j: int|
        0 <= j < i && (#[trigger] coded_candidate(vs[j].1, arch)) is Some ==> coded_candidate(
            vs[j].1,
            arch,
        )->Some_0.0 < coded_candidate(vs[i].1, arch)->Some_0.0) && (forall|j: int|
        i < j < vs.len() && (#[trigger] coded_candidate(vs[j].1, arch)) is Some ==> coded_candidate(
            vs[j].1,
            arch,
        )->Some_0.0 <= coded_candidate(vs[i].1, arch)->Some_0.0)
}

/// The record with the highest version code, where its digest is hexadecimal.
pub open spec fn pick_latest(vs: Seq<(String, Json)>, arch: Option<Seq<char>>) -> Option<(Seq<char>, Seq<u8>)> {
    if exists|i: int| latest_at(vs, arch, i) {
        let c = coded_candidate(vs[choose|i: int| latest_at(vs, arch, i)].1, arch)->Some_0;
        match hex_text(c.2) {
            Some(d) => Some((c.1, d)),
            None => None,
        }
    } else {
        None
    }
}

/// The file name and expected digest that serve a request for `app_id`, or
/// nothing where the app or the version is not found.
pub open spec fn resolve_app(
    packages: Json,
    app_id: Seq<char>,
    version: Option<Seq<char>>,
    arch: Option<Seq<char>>,
) -> Option<(Seq<char>, Seq<u8>)> {
    match get(packages, app_id) {
        Some(Json::Array(a)) => pick_listed(a@, version, arch),
        Some(app) => match get(app, "versions"@) {
            Some(Json::Object(vs)) => match version {
                Some(v) => pick_named(vs@, v, arch),
                None => pick_latest(vs@, arch),
            },
            _ => None,
        },
        None => None,
    }
}

/// The base address of the repository that an index advertises.
pub open spec fn index_address(index: Json) -> Option<Seq<char>> {
    match get(index, "repo"@) {
        Some(repo) => text_of(get(repo, "address"@)),
        None => None,
    }
}

/// The package table of an index.
pub open spec fn index_packages(index: Json) -> Option<Json> {
    match get(index, "packages"@) {
        Some(p) => if p is Object {
            Some(p)
        } else {
            None
        },
        None => None,
    }
}

/// A resolved package: the request, the file name relative to the
/// repository's address, and the digest that the index expects of the file.
pub struct PackageEntry {
    pub app_id: String,
    pub version: Option<String>,
    pub filename: String,
    pub hash: Vec<u8>,
}

/// The resolution of a batch of requests: one result for each request, in
/// order, and the repository's address.
pub struct DownloadInformation {
    pub packages: Vec<Option<PackageEntry>>,
    pub repo_address: String,
}

/// Whether `r` is the resolution of the request `req` against `packages`.
pub open spec fn resolves(
    packages: Json,
    req: (String, Option<String>),
    arch: Option<Seq<char>>,
    r: Option<PackageEntry>,
) -> bool {
    match r {
        Some(p) => p.app_id@ == req.0@ && opt_chars(p.version) == opt_chars(req.1) && resolve_app(
            packages,
            req.0@,
            opt_chars(req.1),
            arch,
        ) == Some((p.filename@, p.hash@)),
        None => resolve_app(packages, req.0@, opt_chars(req.1), arch) is None,
    }
}

fn opt_str_equal(a: &Option<String>, b: &String) -> (r: bool)
    ensures
        r == (opt_chars(*a) is None || opt_chars(*a) == Some(b@)),
{
    match a {
        Some(s) => str_equal(s.as_str(), b.as_str()),
        None => true,
    }
}

fn lists_text_exec(j: Option<&Json>, s: &String) -> (r: bool)
    ensures
        r == lists_text(
            match j {
                Some(x) => Some(*x),
                None => None,
            },
            s@,
        ),
{
    match j {
        Some(Json::Array(a)) => {
            let mut k: usize = 0;
            while k < a.len()
                invariant
                    j == Some(&Json::Array(*a)),
                    k <= a@.len(),
                    forall|m: int| 0 <= m < k ==> text_of(Some(#[trigger] a@[m])) != Some(s@),
                decreases a@.len() - k,
            {
                match a[k].as_str() {
                    Some(t) => {
                        if str_equal(t.as_str(), s.as_str()) {
                            return true;
                        }
                    },
                    None => {},
                }
                k = k + 1;
            }
            false
        },
        _ => false,
    }
}

fn abi_admits_exec(list: Option<&Json>, arch: &Option<String>) -> (r: bool)
    ensures
        r == abi_admits(
            match list {
                Some(x) => Some(*x),
                None => None,
            },
            opt_chars(*arch),
        ),
{
    match arch {
        Some(a) => lists_text_exec(list, a),
        None => true,
    }
}

fn text_field<'a>(j: &'a Json, key: &str) -> (r: Option<&'a String>)
    ensures
        match r {
            Some(s) => text_of(get(*j, key@)) == Some(s@),
            None => text_of(get(*j, key@)) is None,
        },
{
    match j.get(key) {
        Some(v) => v.as_str(),
        None => None,
    }
}

fn listed_candidate_exec(e: &Json, version: &Option<String>, arch: &Option<String>) -> (r: Option<
    (String, Vec<u8>),
>)
    ensures
        match r {
            Some(c) => listed_candidate(*e, opt_chars(*version), opt_chars(*arch)) == Some(
                (c.0@, c.1@),
            ),
            None => listed_candidate(*e, opt_chars(*version), opt_chars(*arch)) is None,
        },
{
    let name = match text_field(e, "versionName") {
        Some(n) => n,
        None => return None,
    };
    let file = match text_field(e, "apkName") {
        Some(f) => f,
        None => return None,
    };
    let hash = match text_field(e, "hash") {
        Some(h) => h,
        None => return None,
    };
    if !opt_str_equal(version, name) {
        return None;
    }
    let digest = match decode_hex_str(hash.as_str()) {
        Some(d) => d,
        None => return None,
    };
    if !abi_admits_exec(e.get("nativecode"), arch) {
        return None;
    }
    Some((file.clone(), digest))
}

fn pick_listed_exec(a: &Vec<Json>, version: &Option<String>, arch: &Option<String>) -> (r: Option<
    (String, Vec<u8>),
>)
    ensures
        match r {
            Some(c) => pick_listed(a@, opt_chars(*version), opt_chars(*arch)) == Some((c.0@, c.1@)),
            None => pick_listed(a@, opt_chars(*version), opt_chars(*arch)) is None,
        },
{
    let ghost v = opt_chars(*version);
    let ghost ar = opt_chars(*arch);
    let mut i: usize = 0;
    while i < a.len()
        invariant
            v == opt_chars(*version),
            ar == opt_chars(*arch),
            i <= a@.len(),
            forall|j: int| 0 <= j < i ==> (#[trigger] listed_candidate(a@[j], v, ar)) is None,
        decreases a@.len() - i,
    {
        match listed_candidate_exec(&a[i], version, arch) {
            Some(c) => {
                proof {
                    assert(first_listed_at(a@, v, ar, i as int));
                    let k = choose|k: int| first_listed_at(a@, v, ar, k);
                    if k < i {
                        assert(listed_candidate(a@[k], v, ar) is None);
                    } else if k > i {
                        assert(listed_candidate(a@[i as int], v, ar) is None);
                    }
                }
                return Some(c);
            },
            None => {},
        }
        i = i + 1;
    }
    None
}

fn version_record_exec(v: &Json) -> (r: Option<(&Json, &String, &String)>)
    ensures
        match r {
            Some(x) => version_record(*v) == Some((*x.0, x.1@, x.2@)),
            None => version_record(*v) is None,
        },
{
    let m = match v.get("manifest") {
        Some(m) => m,
        None => return None,
    };
    let f = match v.get("file") {
        Some(f) => f,
        None => return None,
    };
    let name = match text_field(f, "name") {
        Some(n) => n,
        None => return None,
    };
    let sha = match text_field(f, "sha256") {
        Some(s) => s,
        None => return None,
    };
    Some((m, name, sha))
}

fn named_candidate_exec(v: &Json, version: &String, arch: &Option<String>) -> (r: Option<
    (String, Vec<u8>),
>)
    ensures
        match r {
            Some(c) => named_candidate(*v, version@, opt_chars(*arch)) == Some((c.0@, c.1@)),
            None => named_candidate(*v, version@, opt_chars(*arch)) is None,
        },
{
    let (m, name, sha) = match version_record_exec(v) {
        Some(x) => x,
        None => return None,
    };
    match text_field(m, "versionName") {
        Some(n) => {
            if !str_equal(n.as_str(), version.as_str()) {
                return None;
            }
        },
        None => return None,
    }
    let digest = match decode_hex_str(sha.as_str()) {
        Some(d) => d,
        None => return None,
    };
    if !abi_admits_exec(m.get("nativecode"), arch) {
        return None;
    }
    Some((name.clone(), digest))
}

fn coded_candidate_exec<'a>(v: &'a Json, arch: &Option<String>) -> (r: Option<(u64, &'a String, &'a String)>)
    ensures
        match r {
            Some(c) => coded_candidate(*v, opt_chars(*arch)) == Some((c.0, c.1@, c.2@)),
            None => coded_candidate(*v, opt_chars(*arch)) is None,
        },
{
    let (m, name, sha) = match version_record_exec(v) {
        Some(x) => x,
        None => return None,
    };
    let code = match m.get("versionCode") {
        Some(Json::Number(Some(c))) => *c,
        _ => return None,
    };
    if !abi_admits_exec(m.get("nativecode"), arch) {
        return None;
    }
    Some((code, name, sha))
}

fn pick_named_exec(vs: &Vec<(String, Json)>, version: &String, arch: &Option<String>) -> (r: Option<
    (String, Vec<u8>),
>)
    ensures
        match r {
            Some(c) => pick_named(vs@, version@, opt_chars(*arch)) == Some((c.0@, c.1@)),
            None => pick_named(vs@, version@, opt_chars(*arch)) is None,
        },
{
    let ghost ar = opt_chars(*arch);
    let mut i: usize = 0;
    while i < vs.len()
        invariant
            ar == opt_chars(*arch),
            i <= vs@.len(),
            forall|j: int| 0 <= j < i ==> (#[trigger] named_candidate(vs@[j].1, version@, ar)) is None,
        decreases vs@.len() - i,
    {
        match named_candidate_exec(&vs[i].1, version, arch) {
            Some(c) => {
                proof {
                    assert(first_named_at(vs@, version@, ar, i as int));
                    let k = choose|k: int| first_named_at(vs@, version@, ar, k);
                    if k < i {
                        assert(named_candidate(vs@[k].1, version@, ar) is None);
                    } else if k > i {
                        assert(named_candidate(vs@[i as int].1, version@, ar) is None);
                    }
                }
                return Some(c);
            },
            None => {},
        }
        i = i + 1;
    }
    None
}

fn pick_latest_exec(vs: &Vec<(String, Json)>, arch: &Option<String>) -> (r: Option<(String, Vec<u8>)>)
    ensures
        match r {
            Some(c) => pick_latest(vs@, opt_chars(*arch)) == Some((c.0@, c.1@)),
            None => pick_latest(vs@, opt_chars(*arch)) is None,
        },
{
    let ghost ar = opt_chars(*arch);
    let mut best: Option<usize> = None;
    let mut latest: u64 = 0;
    let mut i: usize = 0;
    while i < vs.len()
        invariant
            ar == opt_chars(*arch),
            i <= vs@.len(),
            match best {
                Some(b) => b < i && latest > 0 && coded_candidate(vs@[b as int].1, ar) is Some
                    && coded_candidate(vs@[b as int].1, ar)->Some_0.0 == latest && (forall|j: int|
                    0 <= j < b && (#[trigger] coded_candidate(vs@[j].1, ar)) is Some
                        ==> coded_candidate(vs@[j].1, ar)->Some_0.0 < latest) && (forall|j: int|
                    b < j < i && (#[trigger] coded_candidate(vs@[j].1, ar)) is Some
                        ==> coded_candidate(vs@[j].1, ar)->Some_0.0 <= latest),
                None => latest == 0 && forall|j: int|
                    0 <= j < i && (#[trigger] coded_candidate(vs@[j].1, ar)) is Some
                        ==> coded_candidate(vs@[j].1, ar)->Some_0.0 == 0,
            },
        decreases vs@.len() - i,
    {
        match coded_candidate_exec(&vs[i].1, arch) {
            Some((code, _, _)) => {
                if code > latest {
                    latest = code;
                    best = Some(i);
                }
            },
            None => {},
        }
        i = i + 1;
    }
    match best {
        None => {
            proof {
                assert forall|k: int| !latest_at(vs@, ar, k) by {
                    if latest_at(vs@, ar, k) {
                        assert(coded_candidate(vs@[k].1, ar) is Some);
                    }
                }
            }
            None
        },
        Some(b) => {
            proof {
                assert(latest_at(vs@, ar, b as int));
                let k = choose|k: int| latest_at(vs@, ar, k);
                if k < b {
                    assert(coded_candidate(vs@[k].1, ar) is Some);
                } else if k > b {
                    assert(coded_candidate(vs@[b as int].1, ar) is Some);
                }
            }
            match coded_candidate_exec(&vs[b].1, arch) {
                Some((_, name, sha)) => match decode_hex_str(sha.as_str()) {
                    Some(d) => Some((name.clone(), d)),
                    None => None,
                },
                None => None,
            }
        },
    }
}

fn resolve_app_exec(packages: &Json, app_id: &String, version: &Option<String>, arch: &Option<String>) -> (r: Option<
    (String, Vec<u8>),
>)
    ensures
        match r {
            Some(c) => resolve_app(*packages, app_id@, opt_chars(*version), opt_chars(*arch)) == Some(
                (c.0@, c.1@),
            ),
            None => resolve_app(*packages, app_id@, opt_chars(*version), opt_chars(*arch)) is None,
        },
{
    match packages.get(app_id.as_str()) {
        Some(Json::Array(a)) => pick_listed_exec(a, version, arch),
        Some(app) => match app.get("versions") {
            Some(Json::Object(vs)) => match version {
                Some(v) => pick_named_exec(vs, v, arch),
                None => pick_latest_exec(vs, arch),
            },
            _ => None,
        },
        None => None,
    }
}

/// Resolves each request against the index. An index without a repository
/// address or without a package table is a `SchemaError`; a request that
/// finds no app or no matching version yields `None` in its place and leaves
/// the others alone.
pub fn parse_json_for_download_information(
    index: &Json,
    apps: &Vec<(String, Option<String>)>,
    arch: &Option<String>,
) -> (r: Result<DownloadInformation, Error>)
    ensures
        r is Ok <==> index_address(*index) is Some && index_packages(*index) is Some,
        r is Err ==> r == Err::<DownloadInformation, Error>(Error::SchemaError),
        r matches Ok(info) ==> {
            &&& index_address(*index) == Some(info.repo_address@)
            &&& info.packages@.len() == apps@.len()
            &&& forall|i: int|
                0 <= i < apps@.len() ==> resolves(
                    index_packages(*index)->Some_0,
                    #[trigger] apps@[i],
                    opt_chars(*arch),
                    info.packages@[i],
                )
        },
{
    let address = match index.get("repo") {
        Some(repo) => match text_field(repo, "address") {
            Some(a) => a,
            None => return Err(Error::SchemaError),
        },
        None => return Err(Error::SchemaError),
    };
    let packages = match index.get("packages") {
        Some(p) => match p {
            Json::Object(_) => p,
            _ => return Err(Error::SchemaError),
        },
        None => return Err(Error::SchemaError),
    };
    let mut out: Vec<Option<PackageEntry>> = Vec::new();
    let mut i: usize = 0;
    while i < apps.len()
        invariant
            i <= apps@.len(),
            out@.len() == i,
            index_packages(*index) == Some(*packages),
            forall|j: int|
                0 <= j < i ==> resolves(*packages, #[trigger] apps@[j], opt_chars(*arch), out@[j]),
        decreases apps@.len() - i,
    {
        let (app_id, version) = (&apps[i].0, &apps[i].1);
        let found = match resolve_app_exec(packages, app_id, version, arch) {
            Some((filename, hash)) => Some(
                PackageEntry { app_id: app_id.clone(), version: version.clone(), filename, hash },
            ),
            None => None,
        };
        out.push(found);
        i = i + 1;
    }
    Ok(DownloadInformation { packages: out, repo_address: address.clone() })
}

/// Whether a downloaded package has the SHA-256 digest that the index
/// expects of it.
pub fn package_digest_matches(expected: &Vec<u8>, data: &[u8]) -> (r: bool)
    ensures
        r == (expected@ == sha256_of(data@)),
{
    let actual = sha256_digest(data);
    bytes_equal(expected, &actual)
}

/// How a package download failed.
#[derive(Debug, Clone, Copy, PartialEq, Eq, Structural)]
pub enum DownloadFailure {
    /// The file is already there.
    FileExists,
    /// The file cannot be written.
    PermissionDenied,
    /// Anything else: the network, the response, the disk.
    Other,
}

/// The number of attempts at one package download.
pub const DOWNLOAD_ATTEMPTS: u32 = 3;

/// Whether to try a package download again after a failure, with `attempts`
/// made so far: a first attempt that found the file already there, or could
/// not write it, is not retried; any other failure is, up to
/// `DOWNLOAD_ATTEMPTS` attempts in all.
pub fn retry_after(failure: DownloadFailure, attempts: u32) -> (r: bool)
    ensures
        r == (attempts < DOWNLOAD_ATTEMPTS && (attempts > 1 || failure == DownloadFailure::Other)),
{
    if attempts >= DOWNLOAD_ATTEMPTS {
        return false;
    }
    match failure {
        DownloadFailure::Other => true,
        _ => attempts > 1,
    }
}

} // verus!
