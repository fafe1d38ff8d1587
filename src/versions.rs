//! The versions of each app that an index offers, listed in string order.
use vstd::prelude::*;
use vstd::string::*;
use crate::error::Error;
use crate::json::{get, text_of, Json};
use crate::text::{str_equal, views};

verus! {

/// The order of `String`: lexicographic by character, a proper prefix first.
pub open spec fn lex_lt(a: Seq<char>, b: Seq<char>) -> bool
    decreases a.len(),
{
    if a.len() == 0 {
        b.len() > 0
    } else if b.len() == 0 {
        false
    } else if a[0] != b[0] {
        a[0] < b[0]
    } else {
        lex_lt(a.drop_first(), b.drop_first())
    }
}

pub proof fn lemma_lex_irreflexive(a: Seq<char>)
    ensures
        !lex_lt(a, a),
    decreases a.len(),
{
    if a.len() > 0 {
        lemma_lex_irreflexive(a.drop_first());
    }
}

pub proof fn lemma_lex_total(a: Seq<char>, b: Seq<char>)
    ensures
        a == b || lex_lt(a, b) || lex_lt(b, a),
    decreases a.len(),
{
    if a.len() > 0 && b.len() > 0 && a[0] == b[0] {
        lemma_lex_total(a.drop_first(), b.drop_first());
        if a.drop_first() == b.drop_first() {
            assert(a =~= seq![a[0]] + a.drop_first());
            assert(b =~= seq![b[0]] + b.drop_first());
        }
    } else if a.len() == 0 && b.len() == 0 {
        assert(a =~= b);
    }
}

pub proof fn lemma_lex_transitive(a: Seq<char>, b: Seq<char>, c: Seq<char>)
    requires
        lex_lt(a, b),
        lex_lt(b, c),
    ensures
        lex_lt(a, c),
    decreases a.len(),
{
    if a.len() > 0 && b.len() > 0 && c.len() > 0 && a[0] == b[0] && b[0] == c[0] {
        lemma_lex_transitive(a.drop_first(), b.drop_first(), c.drop_first());
    }
}

/// Whether `v` is in strictly increasing string order.
pub open spec fn strictly_sorted(v: Seq<Seq<char>>) -> bool {
    forall|i: int, j: int| 0 <= i < j < v.len() ==> lex_lt(#[trigger] v[i], #[trigger] v[j])
}

/// Whether `a` comes before `b` in string order.
pub fn str_less(a: &str, b: &str) -> (r: bool)
    ensures
        r == lex_lt(a@, b@),
{
    let n = a.unicode_len();
    let m = b.unicode_len();
    let mut i: usize = 0;
    assert(a@.skip(0) =~= a@);
    assert(b@.skip(0) =~= b@);
    while i < n && i < m
        invariant
            n == a@.len(),
            m == b@.len(),
            i <= n,
            i <= m,
            lex_lt(a@, b@) == lex_lt(a@.skip(i as int), b@.skip(i as int)),
        decreases n - i,
    {
        let x = a.get_char(i);
        let y = b.get_char(i);
        assert(a@.skip(i as int)[0] == x);
        assert(b@.skip(i as int)[0] == y);
        if x != y {
            return x < y;
        }
        assert(a@.skip(i as int).drop_first() =~= a@.skip(i + 1));
        assert(b@.skip(i as int).drop_first() =~= b@.skip(i + 1));
        i = i + 1;
    }
    i == n && i < m
}

/// Inserts `x` into a strictly sorted list, unless it is there already.
pub fn insert_sorted(out: &mut Vec<String>, x: String)
    requires
        strictly_sorted(views(old(out)@)),
    ensures
        strictly_sorted(views(final(out)@)),
        forall|n: Seq<char>|
            views(final(out)@).contains(n) <==> views(old(out)@).contains(n) || n == x@,
{
    let ghost v0 = views(out@);
    let mut k: usize = 0;
    while k < out.len() && str_less(out[k].as_str(), x.as_str())
        invariant
            v0 == views(out@),
            k <= out@.len(),
            forall|j: int| 0 <= j < k ==> lex_lt(#[trigger] v0[j], x@),
        decreases out@.len() - k,
    {
        k = k + 1;
    }
    if k < out.len() && str_equal(out[k].as_str(), x.as_str()) {
        assert forall|n: Seq<char>| v0.contains(n) || n == x@ implies v0.contains(n) by {
            if n == x@ {
                assert(v0[k as int] == n);
            }
        }
        return;
    }
    proof {
        if k < v0.len() {
            lemma_lex_total(v0[k as int], x@);
        }
    }
    out.insert(k, x);
    let ghost v1 = views(out@);
    proof {
        assert(v1 =~= v0.insert(k as int, x@));
        assert forall|i: int, j: int| 0 <= i < j < v1.len() implies lex_lt(#[trigger] v1[i], #[trigger] v1[j]) by {
            if j < k {
                assert(v1[i] == v0[i] && v1[j] == v0[j]);
            } else if j == k {
                assert(v1[i] == v0[i]);
            } else if i == k {
                assert(v1[j] == v0[j - 1]);
                if j - 1 > k {
                    lemma_lex_transitive(x@, v0[k as int], v0[j - 1]);
                }
            } else if i < k {
                assert(v1[i] == v0[i] && v1[j] == v0[j - 1]);
            } else {
                assert(v1[i] == v0[i - 1] && v1[j] == v0[j - 1]);
            }
        }
        assert forall|n: Seq<char>| v1.contains(n) <==> v0.contains(n) || n == x@ by {
            if v1.contains(n) {
                let i = choose|i: int| 0 <= i < v1.len() && v1[i] == n;
                if i < k {
                    assert(v0[i] == n);
                } else if i > k {
                    assert(v0[i - 1] == n);
                }
            }
            if v0.contains(n) {
                let i = choose|i: int| 0 <= i < v0.len() && v0[i] == n;
                if i < k {
                    assert(v1[i] == n);
                } else {
                    assert(v1[i + 1] == n);
                }
            }
            if n == x@ {
                assert(v1[k as int] == n);
            }
        }
    }
}

/// The version name of an entry of a version list.
pub open spec fn listed_name(e: Json) -> Option<Seq<char>> {
    text_of(get(e, "versionName"@))
}

/// The version name in the manifest of a version record.
pub open spec fn manifest_name(v: Json) -> Option<Seq<char>> {
    match get(v, "manifest"@) {
        Some(m) => text_of(get(m, "versionName"@)),
        None => None,
    }
}

/// The version names that an index offers for `app_id`, under either shape of
/// the package table; nothing where the app is not in it.
pub open spec fn app_versions(packages: Json, app_id: Seq<char>) -> Option<Set<Seq<char>>> {
    match get(packages, app_id) {
        Some(Json::Array(a)) => Some(
            Set::new(|n: Seq<char>| exists|k: int| 0 <= k < a@.len() && listed_name(a@[k]) == Some(n)),
        ),
        Some(app) => if app is Object {
            match get(app, "versions"@) {
                Some(Json::Object(vs)) => Some(
                    Set::new(
                        |n: Seq<char>|
                            exists|k: int| 0 <= k < vs@.len() && manifest_name(vs@[k].1) == Some(n),
                    ),
                ),
                _ => Some(Set::empty()),
            }
        } else {
            None
        },
        None => None,
    }
}

fn listed_names(a: &Vec<Json>) -> (r: Vec<String>)
    ensures
        strictly_sorted(views(r@)),
        forall|n: Seq<char>|
            views(r@).contains(n) <==> exists|k: int| 0 <= k < a@.len() && listed_name(a@[k]) == Some(n),
{
    let mut out: Vec<String> = Vec::new();
    let mut i: usize = 0;
    assert(views(out@) =~= Seq::<Seq<char>>::empty());
    while i < a.len()
        invariant
            i <= a@.len(),
            strictly_sorted(views(out@)),
            forall|n: Seq<char>|
                views(out@).contains(n) <==> exists|k: int| 0 <= k < i && listed_name(a@[k]) == Some(n),
        decreases a@.len() - i,
    {
        match a[i].get("versionName") {
            Some(v) => match v.as_str() {
                Some(s) => insert_sorted(&mut out, s.clone()),
                None => {},
            },
            None => {},
        }
        proof {
            assert forall|n: Seq<char>|
                views(out@).contains(n) <==> exists|k: int|
                    0 <= k < i + 1 && listed_name(a@[k]) == Some(n) by {
                if listed_name(a@[i as int]) == Some(n) {
                    assert(0 <= i < i + 1);
                }
                if exists|k: int| 0 <= k < i + 1 && listed_name(a@[k]) == Some(n) {
                    let k = choose|k: int| 0 <= k < i + 1 && listed_name(a@[k]) == Some(n);
                    if k < i {
                        assert(exists|k2: int| 0 <= k2 < i && listed_name(a@[k2]) == Some(n));
                    }
                }
            }
        }
        i = i + 1;
    }
    out
}

fn manifest_names(vs: &Vec<(String, Json)>) -> (r: Vec<String>)
    ensures
        strictly_sorted(views(r@)),
        forall|n: Seq<char>|
            views(r@).contains(n) <==> exists|k: int|
                0 <= k < vs@.len() && manifest_name(vs@[k].1) == Some(n),
{
    let mut out: Vec<String> = Vec::new();
    let mut i: usize = 0;
    assert(views(out@) =~= Seq::<Seq<char>>::empty());
    while i < vs.len()
        invariant
            i <= vs@.len(),
            strictly_sorted(views(out@)),
            forall|n: Seq<char>|
                views(out@).contains(n) <==> exists|k: int|
                    0 <= k < i && manifest_name(vs@[k].1) == Some(n),
        decreases vs@.len() - i,
    {
        match vs[i].1.get("manifest") {
            Some(m) => match m.get("versionName") {
                Some(v) => match v.as_str() {
                    Some(s) => insert_sorted(&mut out, s.clone()),
                    None => {},
                },
                None => {},
            },
            None => {},
        }
        proof {
            assert forall|n: Seq<char>|
                views(out@).contains(n) <==> exists|k: int|
                    0 <= k < i + 1 && manifest_name(vs@[k].1) == Some(n) by {
                if manifest_name(vs@[i as int].1) == Some(n) {
                    assert(0 <= i < i + 1);
                }
                if exists|k: int| 0 <= k < i + 1 && manifest_name(vs@[k].1) == Some(n) {
                    let k = choose|k: int| 0 <= k < i + 1 && manifest_name(vs@[k].1) == Some(n);
                    if k < i {
                        assert(exists|k2: int| 0 <= k2 < i && manifest_name(vs@[k2].1) == Some(n));
                    }
                }
            }
        }
        i = i + 1;
    }
    out
}

/// Whether `r` lists, in strictly increasing string order, the versions that
/// `packages` offers for `app_id`, or is nothing where the app is not there.
pub open spec fn lists_versions(packages: Json, app_id: Seq<char>, r: Option<Vec<String>>) -> bool {
    match r {
        Some(v) => app_versions(packages, app_id) is Some && strictly_sorted(views(v@)) && forall|
            n: Seq<char>,
        | views(v@).contains(n) <==> app_versions(packages, app_id)->Some_0.contains(n),
        None => app_versions(packages, app_id) is None,
    }
}

/// The versions of one app that the package table offers.
pub fn available_versions(packages: &Json, app_id: &str) -> (r: Option<Vec<String>>)
    ensures
        lists_versions(*packages, app_id@, r),
{
    match packages.get(app_id) {
        Some(Json::Array(a)) => Some(listed_names(a)),
        Some(app) => match app {
            Json::Object(_) => match app.get("versions") {
                Some(Json::Object(vs)) => Some(manifest_names(vs)),
                _ => {
                    let v: Vec<String> = Vec::new();
                    assert(views(v@) =~= Seq::<Seq<char>>::empty());
                    Some(v)
                },
            },
            _ => None,
        },
        None => None,
    }
}

/// The versions that the index offers of each requested app, in request
/// order: `None` where the app is not in the package table. An index without
/// a package table is a `SchemaError`.
pub fn parse_json_display_versions(index: &Json, apps: &Vec<(String, Option<String>)>) -> (r: Result<
    Vec<Option<Vec<String>>>,
    Error,
>)
    ensures
        r is Err <==> !(get(*index, "packages"@) matches Some(Json::Object(_))),
        r is Err ==> r == Err::<Vec<Option<Vec<String>>>, Error>(Error::SchemaError),
        r matches Ok(v) ==> v@.len() == apps@.len() && forall|i: int|
            0 <= i < apps@.len() ==> lists_versions(
                get(*index, "packages"@)->Some_0,
                #[trigger] apps@[i].0@,
                v@[i],
            ),
{
    let packages = match index.get("packages") {
        Some(p) => match p {
            Json::Object(_) => p,
            _ => return Err(Error::SchemaError),
        },
        None => return Err(Error::SchemaError),
    };
    let mut out: Vec<Option<Vec<String>>> = Vec::new();
    let mut i: usize = 0;
    while i < apps.len()
        invariant
            i <= apps@.len(),
            out@.len() == i,
            get(*index, "packages"@) == Some(*packages),
            forall|j: int| 0 <= j < i ==> lists_versions(*packages, #[trigger] apps@[j].0@, out@[j]),
        decreases apps@.len() - i,
    {
        out.push(available_versions(packages, apps[i].0.as_str()));
        i = i + 1;
    }
    Ok(out)
}

} // verus!
