//! User-installed addons: their manifests, the catalog of installed addons, and
//! which of them a request may run.
use vstd::prelude::*;
use crate::json::{
    entry, is_object, json_of, member_views, number, object, parse_json, text, Json, JsonView,
};
use crate::text::decimal;
use crate::text::{
    lemma_text_lt_asymmetric, lemma_text_lt_irreflexive, lemma_text_lt_total,
    joined_lines, lemma_text_lt_transitive, push_str, string_of, text_eq, text_less, text_lt,
};

verus! {

/// The `addon.toml` of an addon.
#[derive(Clone, Debug)]
pub struct Manifest {
    pub api_version: u32,
    pub name: String,
    pub kind: String,
    pub description: String,
    pub command: Vec<String>,
    pub enabled: bool,
    pub formats: Vec<String>,
    pub requires: Vec<String>,
    pub timeout_seconds: u64,
}

/// An installed addon: where its manifest lies, and what it says.
#[derive(Clone, Debug)]
pub struct Addon {
    pub path: String,
    pub manifest: Manifest,
}

/// Number of seconds an addon may run when its manifest names no limit.
pub fn timeout() -> (seconds: u64)
    ensures
        seconds == 10,
{
    10
}

/// Why an addon, or the set of installed addons, cannot be used.
#[derive(Clone, Debug)]
pub enum AddonError {
    /// The manifest names an API version other than 1.
    UnsupportedApi(String),
    /// The manifest's kind differs from the directory it lies in.
    KindMismatch(String),
    /// The manifest has no name or no command.
    Incomplete,
    /// The manifest's timeout is outside 1..=120 seconds.
    Timeout,
    /// Two installed addons share this name.
    Duplicate(String),
    /// No installed addon has the requested name.
    NotFound,
    /// The addon is not enabled.
    Disabled(String),
    /// The addon names its input formats, and the request names none.
    FormatMissing,
    /// The addon does not accept the request's format.
    UnsupportedFormat(String),
    /// The kind is neither `decoders` nor `identifiers`.
    BadKind,
    /// No installed addon matches.
    NoMatch,
    /// No addon of the kind is enabled.
    NoneEnabled(String),
    /// The format cannot be told from the file name.
    CannotInfer,
    /// The addon wrote more than 1 MiB.
    OutputTooLarge,
    /// The addon's output is not a JSON document.
    NotJson,
    /// The addon's output is JSON but not an object.
    NotJsonObject,
}

pub open spec fn name_of(a: Addon) -> Seq<char> {
    a.manifest.name@
}

/// The rules a manifest found under the directory of `kind` must keep, or the first it breaks.
pub open spec fn manifest_problem(m: Manifest, kind: Seq<char>) -> Option<AddonError> {
    if m.api_version != 1 {
        Some(AddonError::UnsupportedApi(m.name))
    } else if m.kind@ != kind {
        Some(AddonError::KindMismatch(m.name))
    } else if m.name@.len() == 0 || m.command@.len() == 0 {
        Some(AddonError::Incomplete)
    } else if !(1 <= m.timeout_seconds <= 120) {
        Some(AddonError::Timeout)
    } else {
        None
    }
}

/// Checks a manifest read from the directory of `kind`.
pub fn check_manifest(m: &Manifest, kind: &str) -> (r: Result<(), AddonError>)
    ensures
        manifest_problem(*m, kind@) matches Some(e) ==> r matches Err(f) && f == e,
        manifest_problem(*m, kind@) is None ==> r is Ok,
{
    if m.api_version != 1 {
        return Err(AddonError::UnsupportedApi(m.name.clone()));
    }
    if !text_eq(m.kind.as_str(), kind) {
        return Err(AddonError::KindMismatch(m.name.clone()));
    }
    if m.name.as_str().is_empty() || m.command.len() == 0 {
        return Err(AddonError::Incomplete);
    }
    if !(1 <= m.timeout_seconds && m.timeout_seconds <= 120) {
        return Err(AddonError::Timeout);
    }
    Ok(())
}

/// `order` lists each position `0..n` exactly once.
pub open spec fn is_permutation(order: Seq<usize>, n: nat) -> bool {
    &&& order.len() == n
    &&& forall|i: int| 0 <= i < n ==> #[trigger] order[i] < n
    &&& forall|i: int, j: int| 0 <= i < j < n ==> order[i] != order[j]
    &&& forall|a: usize| a < n ==> #[trigger] order.contains(a)
}

/// The addons taken in the order `order` have non-decreasing names.
pub open spec fn sorted_by_name(addons: Seq<Addon>, order: Seq<usize>) -> bool {
    forall|i: int, j: int|
        0 <= i < j < order.len() ==> !text_lt(
            name_of(addons[order[j] as int]),
            name_of(addons[order[i] as int]),
        )
}

pub open spec fn names_distinct(addons: Seq<Addon>) -> bool {
    forall|a: int, b: int| 0 <= a < b < addons.len() ==> name_of(addons[a]) != name_of(addons[b])
}

/// A name that two of the addons share.
pub open spec fn shared_name(addons: Seq<Addon>, n: Seq<char>) -> bool {
    exists|a: int, b: int|
        0 <= a < b < addons.len() && name_of(addons[a]) == n && name_of(addons[b]) == n
}

/// The first shared name in name order.
pub open spec fn least_shared_name(addons: Seq<Addon>, n: Seq<char>) -> bool {
    shared_name(addons, n) && forall|m: Seq<char>| #[trigger] shared_name(addons, m) ==> !text_lt(m, n)
}

proof fn lemma_equal_between(x: Seq<char>, y: Seq<char>, z: Seq<char>)
    requires
        !text_lt(y, x),
        !text_lt(z, y),
        x == z,
    ensures
        x == y,
{
    lemma_text_lt_total(x, y);
    lemma_text_lt_total(y, z);
}

/// The order in which the catalog lists the addons: by name, and for equal
/// names in their given order. Fails, naming a shared name, when two
/// addons have the same name.
pub fn catalog_order(addons: &Vec<Addon>) -> (r: Result<Vec<usize>, AddonError>)
    ensures
        r is Ok <==> names_distinct(addons@),
        r matches Ok(order) ==> is_permutation(order@, addons@.len()) && sorted_by_name(
            addons@,
            order@,
        ),
        r matches Err(e) ==> e matches AddonError::Duplicate(n) && least_shared_name(addons@, n@),
{
    let n = addons.len();
    let mut order: Vec<usize> = Vec::new();
    let ghost mut inv: Seq<int> = Seq::empty();
    let mut k: usize = 0;
    while k < n
        invariant
            k <= n,
            n == addons@.len(),
            order@.len() == k,
            inv.len() == k,
            forall|i: int| 0 <= i < k ==> #[trigger] order@[i] < k,
            forall|i: int, j: int| 0 <= i < j < k ==> order@[i] != order@[j],
            forall|a: int| 0 <= a < k ==> 0 <= #[trigger] inv[a] < k && order@[inv[a]] == a,
            sorted_by_name(addons@, order@),
        decreases n - k,
    {
        let name = addons[k].manifest.name.as_str();
        let mut q: usize = 0;
        while q < order.len() && !text_less(name, addons[order[q]].manifest.name.as_str())
            invariant
                q <= order@.len(),
                order@.len() == k,
                k < n,
                n == addons@.len(),
                name@ == name_of(addons@[k as int]),
                forall|i: int| 0 <= i < k ==> #[trigger] order@[i] < k,
                forall|i: int| 0 <= i < q ==> !text_lt(name@, name_of(addons@[#[trigger] order@[i] as int])),
            decreases k - q,
        {
            q = q + 1;
        }
        proof {
            // everything from `q` on is named after `name`
            assert forall|i: int| q <= i < k implies text_lt(name@, name_of(addons@[#[trigger] order@[i] as int])) by {
                let x = name_of(addons@[order@[q as int] as int]);
                let y = name_of(addons@[order@[i] as int]);
                if i > q {
                    assert(!text_lt(y, x));
                    lemma_text_lt_total(x, y);
                    if x != y {
                        lemma_text_lt_transitive(name@, x, y);
                    }
                }
            }
        }
        let ghost old_order = order@;
        order.insert(q, k);
        proof {
            let old_inv = inv;
            inv = Seq::new((k + 1) as nat, |a: int| if a == k {
                q as int
            } else if old_inv[a] >= q {
                old_inv[a] + 1
            } else {
                old_inv[a]
            });
            assert forall|i: int, j: int| 0 <= i < j < order@.len() implies !text_lt(
                name_of(addons@[order@[j] as int]),
                name_of(addons@[order@[i] as int]),
            ) by {
                if i == q {
                    let y = name_of(addons@[order@[j] as int]);
                    assert(order@[j] == old_order[j - 1]);
                    lemma_text_lt_asymmetric(name@, y);
                } else if j == q {
                    assert(order@[i] == old_order[i]);
                } else {
                    let i0 = if i < q { i } else { i - 1 };
                    let j0 = if j < q { j } else { j - 1 };
                    assert(order@[i] == old_order[i0]);
                    assert(order@[j] == old_order[j0]);
                }
            }
            assert forall|i: int| 0 <= i < k + 1 implies #[trigger] order@[i] < k + 1 by {
                if i < q {
                    assert(order@[i] == old_order[i]);
                } else if i > q {
                    assert(order@[i] == old_order[i - 1]);
                }
            }
            assert forall|i: int, j: int| 0 <= i < j < k + 1 implies order@[i] != order@[j] by {
                if i != q && j != q {
                    let i0 = if i < q { i } else { i - 1 };
                    let j0 = if j < q { j } else { j - 1 };
                    assert(order@[i] == old_order[i0]);
                    assert(order@[j] == old_order[j0]);
                } else if i == q {
                    assert(order@[j] == old_order[j - 1]);
                } else {
                    assert(order@[i] == old_order[i]);
                }
            }
            assert forall|a: int| 0 <= a < k + 1 implies 0 <= #[trigger] inv[a] < k + 1
                && order@[inv[a]] == a by {
                if a < k {
                    let p = old_inv[a];
                    assert(old_order[p] == a);
                    if p >= q {
                        assert(order@[p + 1] == old_order[p]);
                    } else {
                        assert(order@[p] == old_order[p]);
                    }
                }
            }
        }
        k = k + 1;
    }
    // the catalog holds no name twice
    let mut i: usize = 0;
    while n > 0 && i < n - 1
        invariant
            n == addons@.len(),
            order@.len() == n,
            i <= n,
            forall|x: int| 0 <= x < n ==> #[trigger] order@[x] < n,
            forall|x: int, y: int| 0 <= x < y < n ==> order@[x] != order@[y],
            sorted_by_name(addons@, order@),
            inv.len() == n,
            forall|a: int| 0 <= a < n ==> 0 <= #[trigger] inv[a] < n && order@[inv[a]] == a,
            forall|x: int| 0 <= x < i ==> name_of(addons@[#[trigger] order@[x] as int]) != name_of(addons@[order@[x + 1] as int]),
        decreases n - i,
    {
        let a = &addons[order[i]].manifest.name;
        let b = &addons[order[i + 1]].manifest.name;
        if text_eq(a.as_str(), b.as_str()) {
            proof {
                let (x, y) = if order@[i as int] < order@[i + 1] {
                    (order@[i as int] as int, order@[i + 1] as int)
                } else {
                    (order@[i + 1] as int, order@[i as int] as int)
                };
                assert(name_of(addons@[x]) == a@ && name_of(addons@[y]) == a@);
                assert(!names_distinct(addons@));
                assert forall|m: Seq<char>| #[trigger] shared_name(addons@, m) implies !text_lt(m, a@) by {
                    let (a0, b0) = choose|a0: int, b0: int|
                        0 <= a0 < b0 < addons@.len() && name_of(addons@[a0]) == m && name_of(addons@[b0]) == m;
                    let pa = inv[a0];
                    let pb = inv[b0];
                    assert(order@[pa] == a0 && order@[pb] == b0);
                    assert(pa != pb);
                    let p = if pa < pb { pa } else { pb };
                    let q = if pa < pb { pb } else { pa };
                    assert(name_of(addons@[order@[p] as int]) == m);
                    assert(name_of(addons@[order@[q] as int]) == m);
                    if text_lt(m, a@) {
                        if p >= i {
                            if p == i {
                                lemma_text_lt_irreflexive(m);
                            } else {
                                lemma_text_lt_asymmetric(m, a@);
                            }
                        }
                        assert(p < i);
                        let mid = name_of(addons@[order@[p + 1] as int]);
                        if p + 1 < q {
                            lemma_equal_between(m, mid, m);
                        }
                        assert(mid == m);
                        assert(false);
                    }
                }
            }
            return Err(AddonError::Duplicate(a.clone()));
        }
        i = i + 1;
    }
    proof {
        // adjacent names differ, so all do
        assert forall|x: int, y: int| 0 <= x < y < n implies name_of(addons@[order@[x] as int])
            != name_of(addons@[order@[y] as int]) by {
            let nx = name_of(addons@[order@[x] as int]);
            let ny = name_of(addons@[order@[y] as int]);
            if nx == ny {
                let nm = name_of(addons@[order@[x + 1] as int]);
                lemma_equal_between(nx, nm, ny);
            }
        }
        assert forall|a: int, b: int| 0 <= a < b < n implies name_of(addons@[a]) != name_of(
            addons@[b],
        ) by {
            let pa = inv[a];
            let pb = inv[b];
            if pa < pb {
                assert(order@[pa] == a && order@[pb] == b);
            } else {
                assert(order@[pa] == a && order@[pb] == b);
                assert(pa != pb);
            }
        }
        assert forall|a: usize| a < n implies #[trigger] order@.contains(a) by {
            assert(order@[inv[a as int]] == a);
        }
    }
    Ok(order)
}


/// The addons in the order `order`.
pub fn arrange(addons: Vec<Addon>, order: &Vec<usize>) -> (r: Vec<Addon>)
    requires
        is_permutation(order@, addons@.len()),
    ensures
        r@.len() == order@.len(),
        forall|i: int| 0 <= i < r@.len() ==> #[trigger] r@[i] == addons@[order@[i] as int],
{
    let n = addons.len();
    let ghost given = addons@;
    let mut source = addons;
    let mut slots: Vec<Option<Addon>> = Vec::new();
    while source.len() > 0
        invariant
            source@.len() + slots@.len() == n,
            n == given.len(),
            forall|j: int| 0 <= j < source@.len() ==> #[trigger] source@[j] == given[j],
            forall|j: int| 0 <= j < slots@.len() ==> #[trigger] slots@[j] == Some(given[n - 1 - j]),
        decreases source@.len(),
    {
        let a = source.pop().unwrap();
        slots.push(Some(a));
    }
    let mut r: Vec<Addon> = Vec::new();
    let mut i: usize = 0;
    while i < n
        invariant
            i <= n,
            n == given.len(),
            slots@.len() == n,
            is_permutation(order@, n as nat),
            r@.len() == i,
            forall|j: int| 0 <= j < i ==> #[trigger] r@[j] == given[order@[j] as int],
            forall|j: int| 0 <= j < n ==> (#[trigger] slots@[j] is Some) ==> slots@[j] == Some(given[n - 1 - j]),
            forall|x: int| i <= x < n ==> #[trigger] slots@[n - 1 - order@[x]] is Some,
        decreases n - i,
    {
        let at = n - 1 - order[i];
        let mut taken: Option<Addon> = None;
        let ghost before = slots@;
        slots.set_and_swap(at, &mut taken);
        proof {
            assert forall|x: int| i + 1 <= x < n implies #[trigger] slots@[n - 1 - order@[x]] is Some by {
                assert(order@[x] != order@[i as int]);
                assert(before[n - 1 - order@[x]] is Some);
            }
        }
        match taken {
            Some(a) => {
                r.push(a);
            },
            None => {
                proof {
                    assert(false);
                }
            },
        }
        i = i + 1;
    }
    r
}

/// The installed addons listed by name. Fails, naming a shared name, when two
/// addons have the same name.
pub fn catalog(addons: Vec<Addon>) -> (r: Result<Vec<Addon>, AddonError>)
    ensures
        r is Ok <==> names_distinct(addons@),
        r matches Ok(listed) ==> exists|order: Seq<usize>|
            #![trigger is_permutation(order, addons@.len())]
            is_permutation(order, addons@.len()) && sorted_by_name(addons@, order) && listed@.len()
                == addons@.len() && forall|i: int|
                0 <= i < listed@.len() ==> #[trigger] listed@[i] == addons@[order[i] as int],
        r matches Err(e) ==> e matches AddonError::Duplicate(n) && least_shared_name(addons@, n@),
{
    let ghost given = addons@;
    match catalog_order(&addons) {
        Err(e) => Err(e),
        Ok(order) => {
            let listed = arrange(addons, &order);
            assert(is_permutation(order@, given.len()));
            Ok(listed)
        },
    }
}


/// `picked` lists, in increasing order, exactly the positions below `n` that satisfy `p`.
pub open spec fn picks(picked: Seq<usize>, n: nat, p: spec_fn(int) -> bool) -> bool {
    &&& forall|i: int, j: int| 0 <= i < j < picked.len() ==> picked[i] < picked[j]
    &&& forall|i: int| 0 <= i < picked.len() ==> #[trigger] picked[i] < n && p(picked[i] as int)
    &&& forall|a: usize| a < n && p(a as int) ==> #[trigger] picked.contains(a)
}

pub open spec fn has_text(v: Seq<String>, t: Seq<char>) -> bool {
    exists|i: int| 0 <= i < v.len() && (#[trigger] v[i])@ == t
}

/// Whether `t` is one of the texts of `v`.
pub fn contains_text(v: &Vec<String>, t: &str) -> (r: bool)
    ensures
        r == has_text(v@, t@),
{
    let mut i: usize = 0;
    while i < v.len()
        invariant
            i <= v@.len(),
            forall|j: int| 0 <= j < i ==> (#[trigger] v@[j])@ != t@,
        decreases v@.len() - i,
    {
        if text_eq(v[i].as_str(), t) {
            return true;
        }
        i = i + 1;
    }
    false
}

/// An addon accepts a format when it names no formats, or names this one.
pub open spec fn accepts(m: Manifest, format: Seq<char>) -> bool {
    m.formats@.len() == 0 || has_text(m.formats@, format)
}

pub fn accepts_format(m: &Manifest, format: &str) -> (r: bool)
    ensures
        r == accepts(*m, format@),
{
    m.formats.len() == 0 || contains_text(&m.formats, format)
}

/// The first installed addon with this name.
pub fn find(addons: &Vec<Addon>, name: &str) -> (r: Option<usize>)
    ensures
        r matches Some(i) ==> i < addons@.len() && name_of(addons@[i as int]) == name@ && forall|
            j: int,
        | 0 <= j < i ==> name_of(#[trigger] addons@[j]) != name@,
        r is None ==> forall|j: int| 0 <= j < addons@.len() ==> name_of(#[trigger] addons@[j]) != name@,
{
    let mut i: usize = 0;
    while i < addons.len()
        invariant
            i <= addons@.len(),
            forall|j: int| 0 <= j < i ==> name_of(#[trigger] addons@[j]) != name@,
        decreases addons@.len() - i,
    {
        if text_eq(addons[i].manifest.name.as_str(), name) {
            return Some(i);
        }
        i = i + 1;
    }
    None
}

/// The position of the first addon called `name`.
pub open spec fn first_named(addons: Seq<Addon>, name: Seq<char>) -> Option<int>
    decreases addons.len(),
{
    if addons.len() == 0 {
        None
    } else {
        match first_named(addons.drop_last(), name) {
            Some(i) => Some(i),
            None => if name_of(addons.last()) == name {
                Some(addons.len() - 1)
            } else {
                None
            },
        }
    }
}

/// The first addon called `name` is at `i` exactly when it has that name and
/// no earlier one has.
pub proof fn lemma_first_named(addons: Seq<Addon>, name: Seq<char>, i: int)
    requires
        0 <= i < addons.len(),
        name_of(addons[i]) == name,
        forall|j: int| 0 <= j < i ==> name_of(#[trigger] addons[j]) != name,
    ensures
        first_named(addons, name) == Some(i),
    decreases addons.len(),
{
    if i < addons.len() - 1 {
        let shorter = addons.drop_last();
        assert(shorter[i] == addons[i]);
        assert forall|j: int| 0 <= j < i implies name_of(#[trigger] shorter[j]) != name by {
            assert(shorter[j] == addons[j]);
        }
        lemma_first_named(shorter, name, i);
    } else {
        lemma_none_named(addons.drop_last(), name);
    }
}

/// What `first_named` finds: an addon of that name with no earlier one of
/// it, or, when it finds none, no addon of that name at all.
pub proof fn first_named_finds_the_first(addons: Seq<Addon>, name: Seq<char>)
    ensures
        match first_named(addons, name) {
            Some(i) => 0 <= i < addons.len() && name_of(addons[i]) == name && forall|j: int|
                0 <= j < i ==> name_of(#[trigger] addons[j]) != name,
            None => forall|j: int| 0 <= j < addons.len() ==> name_of(#[trigger] addons[j]) != name,
        },
    decreases addons.len(),
{
    if addons.len() > 0 {
        let shorter = addons.drop_last();
        first_named_finds_the_first(shorter, name);
        match first_named(shorter, name) {
            Some(i) => {
                assert(shorter[i] == addons[i]);
                assert forall|j: int| 0 <= j < i implies name_of(#[trigger] addons[j]) != name by {
                    assert(shorter[j] == addons[j]);
                }
            },
            None => {
                assert forall|j: int| 0 <= j < addons.len() - 1 implies name_of(#[trigger] addons[j])
                    != name by {
                    assert(shorter[j] == addons[j]);
                }
            },
        }
    }
}

/// No addon is called `name` exactly when none is found by that name.
pub proof fn lemma_none_named(addons: Seq<Addon>, name: Seq<char>)
    requires
        forall|j: int| 0 <= j < addons.len() ==> name_of(#[trigger] addons[j]) != name,
    ensures
        first_named(addons, name) is None,
    decreases addons.len(),
{
    if addons.len() > 0 {
        let shorter = addons.drop_last();
        assert forall|j: int| 0 <= j < shorter.len() implies name_of(#[trigger] shorter[j]) != name by {
            assert(shorter[j] == addons[j]);
        }
        lemma_none_named(shorter, name);
        assert(name_of(addons[addons.len() - 1]) != name);
    }
}

/// What running the addon called `name` needs: which addon it is (the first
/// of that name), and how many seconds it may take (its own limit, capped at
/// `max_seconds`). The addon must be enabled and, when it names its formats,
/// accept the request's.
pub fn prepare_run(addons: &Vec<Addon>, name: &str, format: Option<&str>, max_seconds: u64) -> (r:
    Result<(usize, u64), AddonError>)
    ensures
        match first_named(addons@, name@) {
            None => r matches Err(AddonError::NotFound),
            Some(i) => {
                let m = addons@[i].manifest;
                if !m.enabled {
                    r matches Err(AddonError::Disabled(n)) && n@ == name@
                } else if m.formats@.len() > 0 && format is None {
                    r matches Err(AddonError::FormatMissing)
                } else if m.formats@.len() > 0 && !has_text(m.formats@, format->0@) {
                    r matches Err(AddonError::UnsupportedFormat(n)) && n@ == name@
                } else {
                    r == Ok::<(usize, u64), AddonError>(
                        (
                            i as usize,
                            if m.timeout_seconds < max_seconds {
                                m.timeout_seconds
                            } else {
                                max_seconds
                            },
                        ),
                    )
                }
            },
        },
        r matches Ok((k, _)) ==> k < addons@.len() && addons@[k as int].manifest.name@ == name@,
{
    let i = match find(addons, name) {
        Some(i) => i,
        None => {
            proof {
                lemma_none_named(addons@, name@);
            }
            return Err(AddonError::NotFound);
        },
    };
    proof {
        lemma_first_named(addons@, name@, i as int);
        first_named_finds_the_first(addons@, name@);
    }
    let m = &addons[i].manifest;
    if !m.enabled {
        return Err(AddonError::Disabled(String::from_str(name)));
    }
    if m.formats.len() > 0 {
        match format {
            None => {
                return Err(AddonError::FormatMissing);
            },
            Some(f) => {
                if !contains_text(&m.formats, f) {
                    return Err(AddonError::UnsupportedFormat(String::from_str(name)));
                }
            },
        }
    }
    let t = if m.timeout_seconds < max_seconds {
        m.timeout_seconds
    } else {
        max_seconds
    };
    Ok((i, t))
}

pub open spec fn is_addon_kind(kind: Seq<char>) -> bool {
    kind == "decoders"@ || kind == "identifiers"@
}

/// The enabled decoders that accept `format`, for live decoding.
pub fn live_decoders(addons: &Vec<Addon>, format: &str) -> (r: Vec<usize>)
    ensures
        picks(
            r@,
            addons@.len(),
            |a: int|
                addons@[a].manifest.enabled && addons@[a].manifest.kind@ == "decoders"@ && accepts(
                    addons@[a].manifest,
                    format@,
                ),
        ),
{
    let ghost p = |a: int|
        addons@[a].manifest.enabled && addons@[a].manifest.kind@ == "decoders"@ && accepts(
            addons@[a].manifest,
            format@,
        );
    let mut r: Vec<usize> = Vec::new();
    let mut i: usize = 0;
    while i < addons.len()
        invariant
            i <= addons@.len(),
            picks(r@, i as nat, p),
            p == (|a: int|
        addons@[a].manifest.enabled && addons@[a].manifest.kind@ == "decoders"@ && accepts(
            addons@[a].manifest,
            format@,
        )),
            forall|j: int| 0 <= j < r@.len() ==> #[trigger] r@[j] < i,
        decreases addons@.len() - i,
    {
        let m = &addons[i].manifest;
        let ghost before = r@;
        let take = m.enabled && text_eq(m.kind.as_str(), "decoders") && accepts_format(m, format);
        assert(take == p(i as int));
        if take {
            r.push(i);
        }
        assert(take ==> r@ == before.push(i));
        assert(!take ==> r@ == before);
        proof {
            assert forall|a: usize| a < i + 1 && p(a as int) implies #[trigger] r@.contains(a) by {
                if a < i {
                    assert(before.contains(a));
                    let k = choose|k: int| 0 <= k < before.len() && before[k] == a;
                    assert(r@[k] == a);
                } else {
                    assert(take);
                    assert(r@[r@.len() - 1] == a);
                }
            }
        }
        i = i + 1;
    }
    r
}

/// The addons that `addon enable` changes: those named `name` (every one for
/// `all`), and of the given kind when one is given.
pub fn enable_targets(addons: &Vec<Addon>, name: &str, kind: Option<&str>) -> (r: Result<
    Vec<usize>,
    AddonError,
>)
    ensures
        r matches Ok(v) ==> v@.len() > 0 && picks(
            v@,
            addons@.len(),
            |a: int|
                (name@ == "all"@ || name_of(addons@[a]) == name@) && (kind matches Some(k) ==> k@
                    == addons@[a].manifest.kind@),
        ),
        r matches Err(e) ==> match e {
            AddonError::BadKind => kind matches Some(k) && !is_addon_kind(k@),
            AddonError::NoMatch => forall|a: int|
                0 <= a < addons@.len() ==> !((name@ == "all"@ || name_of(#[trigger] addons@[a])
                    == name@) && (kind matches Some(k) ==> k@ == addons@[a].manifest.kind@)),
            _ => false,
        },
        kind matches Some(k) && !is_addon_kind(k@) ==> r matches Err(AddonError::BadKind),
{
    if let Some(k) = kind {
        if !(text_eq(k, "decoders") || text_eq(k, "identifiers")) {
            return Err(AddonError::BadKind);
        }
    }
    let all = text_eq(name, "all");
    let ghost p = |a: int|
        (name@ == "all"@ || name_of(addons@[a]) == name@) && (kind matches Some(k) ==> k@
            == addons@[a].manifest.kind@);
    let mut r: Vec<usize> = Vec::new();
    let mut i: usize = 0;
    while i < addons.len()
        invariant
            i <= addons@.len(),
            all == (name@ == "all"@),
            picks(r@, i as nat, p),
            p == (|a: int|
        (name@ == "all"@ || name_of(addons@[a]) == name@) && (kind matches Some(k) ==> k@
            == addons@[a].manifest.kind@)),
            forall|j: int| 0 <= j < r@.len() ==> #[trigger] r@[j] < i,
        decreases addons@.len() - i,
    {
        let m = &addons[i].manifest;
        let ghost before = r@;
        let named = all || text_eq(m.name.as_str(), name);
        let kinded = match kind {
            None => true,
            Some(k) => text_eq(k, m.kind.as_str()),
        };
        let take = named && kinded;
        assert(take == p(i as int));
        if take {
            r.push(i);
        }
        assert(take ==> r@ == before.push(i));
        assert(!take ==> r@ == before);
        proof {
            assert forall|a: usize| a < i + 1 && p(a as int) implies #[trigger] r@.contains(a) by {
                if a < i {
                    assert(before.contains(a));
                    let k = choose|k: int| 0 <= k < before.len() && before[k] == a;
                    assert(r@[k] == a);
                } else {
                    assert(take);
                    assert(r@[r@.len() - 1] == a);
                }
            }
        }
        i = i + 1;
    }
    if r.len() == 0 {
        proof {
            assert forall|a: int| 0 <= a < addons@.len() implies !((name@ == "all"@ || name_of(
                #[trigger] addons@[a],
            ) == name@) && (kind matches Some(k) ==> k@ == addons@[a].manifest.kind@)) by {
                if p(a) {
                    assert(r@.contains(a as usize));
                }
            }
        }
        return Err(AddonError::NoMatch);
    }
    Ok(r)
}

/// The enabled addons of a kind, for `analysis` runs; at least one must be.
pub fn enabled_of_kind(addons: &Vec<Addon>, kind: &str) -> (r: Result<Vec<usize>, AddonError>)
    ensures
        !is_addon_kind(kind@) ==> r matches Err(AddonError::BadKind),
        r matches Ok(v) ==> v@.len() > 0 && picks(
            v@,
            addons@.len(),
            |a: int| addons@[a].manifest.enabled && addons@[a].manifest.kind@ == kind@,
        ),
        r matches Err(e) ==> match e {
            AddonError::BadKind => !is_addon_kind(kind@),
            AddonError::NoneEnabled(k) => k@ == kind@ && forall|a: int|
                0 <= a < addons@.len() ==> !((#[trigger] addons@[a]).manifest.enabled
                    && addons@[a].manifest.kind@ == kind@),
            _ => false,
        },
{
    if !(text_eq(kind, "decoders") || text_eq(kind, "identifiers")) {
        return Err(AddonError::BadKind);
    }
    let ghost p = |a: int| addons@[a].manifest.enabled && addons@[a].manifest.kind@ == kind@;
    let mut r: Vec<usize> = Vec::new();
    let mut i: usize = 0;
    while i < addons.len()
        invariant
            i <= addons@.len(),
            picks(r@, i as nat, p),
            p == (|a: int| addons@[a].manifest.enabled && addons@[a].manifest.kind@ == kind@),
            forall|j: int| 0 <= j < r@.len() ==> #[trigger] r@[j] < i,
        decreases addons@.len() - i,
    {
        let m = &addons[i].manifest;
        let ghost before = r@;
        let take = m.enabled && text_eq(m.kind.as_str(), kind);
        assert(take == p(i as int));
        if take {
            r.push(i);
        }
        assert(take ==> r@ == before.push(i));
        assert(!take ==> r@ == before);
        proof {
            assert forall|a: usize| a < i + 1 && p(a as int) implies #[trigger] r@.contains(a) by {
                if a < i {
                    assert(before.contains(a));
                    let k = choose|k: int| 0 <= k < before.len() && before[k] == a;
                    assert(r@[k] == a);
                } else {
                    assert(take);
                    assert(r@[r@.len() - 1] == a);
                }
            }
        }
        i = i + 1;
    }
    if r.len() == 0 {
        proof {
            assert forall|a: int| 0 <= a < addons@.len() implies !((#[trigger] addons@[a]).manifest.enabled
                && addons@[a].manifest.kind@ == kind@) by {
                if p(a) {
                    assert(r@.contains(a as usize));
                }
            }
        }
        return Err(AddonError::NoneEnabled(String::from_str(kind)));
    }
    Ok(r)
}

pub open spec fn text_option(t: Option<&str>) -> Option<Seq<char>> {
    match t {
        Some(e) => Some(e@),
        None => None,
    }
}

/// The input format of a request: the one given, or for `auto` the one that
/// the file's extension names (`cs8` and `iq` are signed 8-bit I/Q).
pub open spec fn format_for(format: Seq<char>, extension: Option<Seq<char>>) -> Option<Seq<char>> {
    if format != "auto"@ {
        Some(format)
    } else {
        match extension {
            Some(e) => if e == "cs8"@ || e == "iq"@ {
                Some("cs8"@)
            } else if e == "cu8"@ || e == "wav"@ || e == "pcap"@ || e == "pcapng"@ || e == "nmea"@
                || e == "ts"@ || e == "hex"@ {
                Some(e)
            } else {
                None
            },
            None => None,
        }
    }
}

/// A given format is used as given. With `auto`, the extension decides: an
/// inferred format is always the extension itself, except that an `iq` file
/// is read as `cs8`; and every supported format named by the extension (`cs8`,
/// `cu8`, `wav`, `pcap`, `pcapng`, `nmea`, `ts`, `hex`) is inferred unchanged.
pub proof fn inferred_format_is_the_extension(format: Seq<char>, extension: Option<Seq<char>>)
    ensures
        format != "auto"@ ==> format_for(format, extension) == Some(format),
        format == "auto"@ ==> (format_for(format, extension) matches Some(f) ==> extension
            matches Some(e) && (f == e || (e == "iq"@ && f == "cs8"@))),
        format == "auto"@ && (extension matches Some(e) && (e == "cs8"@ || e == "cu8"@ || e
            == "wav"@ || e == "pcap"@ || e == "pcapng"@ || e == "nmea"@ || e == "ts"@ || e
            == "hex"@)) ==> format_for(format, extension) == extension,
        format == "auto"@ && extension == Some("iq"@) ==> format_for(format, extension) == Some(
            "cs8"@,
        ),
{
    reveal_strlit("cs8");
    reveal_strlit("iq");
    reveal_strlit("cu8");
    reveal_strlit("wav");
    reveal_strlit("pcap");
    reveal_strlit("pcapng");
    reveal_strlit("nmea");
    reveal_strlit("ts");
    reveal_strlit("hex");
    reveal_strlit("auto");
    if let Some(e) = extension {
        if format == "auto"@ {
            if e == "cu8"@ || e == "wav"@ || e == "pcap"@ || e == "pcapng"@ || e == "nmea"@
                || e == "ts"@ || e == "hex"@ {
                assert("cs8"@.len() == 3 && "cs8"@[1] == 's');
                assert("iq"@.len() == 2);
                assert("cu8"@[1] == 'u');
                assert("wav"@.len() == 3 && "wav"@[1] == 'a');
                assert("pcap"@.len() == 4);
                assert("pcapng"@.len() == 6);
                assert("nmea"@.len() == 4);
                assert("ts"@.len() == 2 && "ts"@[0] == 't');
                assert("hex"@.len() == 3 && "hex"@[1] == 'e');
                assert("iq"@[0] == 'i');
                assert(e != "cs8"@ && e != "iq"@);
            }
        }
    }
}

/// The input format of a request; see `format_for`.
pub fn infer_format(format: &str, extension: Option<&str>) -> (r: Result<String, AddonError>)
    ensures
        r matches Ok(f) ==> format_for(format@, text_option(extension)) == Some(f@),
        r is Err ==> format_for(format@, text_option(extension)) is None,
{
    if !text_eq(format, "auto") {
        return Ok(String::from_str(format));
    }
    match extension {
        Some(e) => {
            if text_eq(e, "cs8") || text_eq(e, "iq") {
                Ok(String::from_str("cs8"))
            } else if text_eq(e, "cu8") || text_eq(e, "wav") || text_eq(e, "pcap") || text_eq(
                e,
                "pcapng",
            ) || text_eq(e, "nmea") || text_eq(e, "ts") || text_eq(e, "hex") {
                Ok(String::from_str(e))
            } else {
                Err(AddonError::CannotInfer)
            }
        },
        None => Err(AddonError::CannotInfer),
    }
}

/// How the addon list shows an addon: its name, kind, whether it is enabled,
/// and its description.
pub open spec fn addon_line(a: Addon) -> Seq<char> {
    a.manifest.name@ + " ["@ + a.manifest.kind@ + "] enabled="@ + (if a.manifest.enabled {
        "true"@
    } else {
        "false"@
    }) + " — "@ + a.manifest.description@
}

pub open spec fn addon_lines(addons: Seq<Addon>) -> Seq<Seq<char>> {
    addons.map_values(|a: Addon| addon_line(a))
}

/// The addon list, one line per addon in catalog order.
pub fn listing(addons: &Vec<Addon>) -> (r: String)
    ensures
        r@ == joined_lines(addon_lines(addons@)),
{
    let mut v: Vec<char> = Vec::new();
    let mut i: usize = 0;
    while i < addons.len()
        invariant
            i <= addons@.len(),
            v@ == joined_lines(addon_lines(addons@.take(i as int))),
        decreases addons@.len() - i,
    {
        let ghost before = v@;
        if i > 0 {
            v.push('\n');
        }
        let a = &addons[i];
        push_str(&mut v, a.manifest.name.as_str());
        push_str(&mut v, " [");
        push_str(&mut v, a.manifest.kind.as_str());
        push_str(&mut v, "] enabled=");
        if a.manifest.enabled {
            push_str(&mut v, "true");
        } else {
            push_str(&mut v, "false");
        }
        push_str(&mut v, " — ");
        push_str(&mut v, a.manifest.description.as_str());
        proof {
            let t = addons@.take(i + 1);
            assert(addon_lines(t).drop_last() =~= addon_lines(addons@.take(i as int)));
            assert(addon_lines(t).last() == addon_line(addons@[i as int]));
            if i == 0 {
                assert(addon_lines(t) =~= seq![addon_line(addons@[0])]);
                assert(v@ =~= addon_line(addons@[0]));
            } else {
                assert(v@ =~= before + seq!['\n'] + addon_line(addons@[i as int]));
            }
        }
        i = i + 1;
    }
    assert(addons@.take(addons@.len() as int) =~= addons@);
    string_of(&v)
}

/// The most an addon may write: 1 MiB.
pub const OUTPUT_LIMIT: usize = 1048576;

/// An addon's result: its output must be one JSON object of at most 1 MiB.
pub fn addon_output(bytes: &[u8]) -> (r: Result<Json, AddonError>)
    ensures
        bytes@.len() > OUTPUT_LIMIT ==> r == Err::<Json, AddonError>(AddonError::OutputTooLarge),
        bytes@.len() <= OUTPUT_LIMIT ==> match json_of(bytes@) {
            None => r == Err::<Json, AddonError>(AddonError::NotJson),
            Some(v) => if is_object(v) {
                r matches Ok(j) && j@ == v
            } else {
                r == Err::<Json, AddonError>(AddonError::NotJsonObject)
            },
        },
{
    if bytes.len() > OUTPUT_LIMIT {
        return Err(AddonError::OutputTooLarge);
    }
    match parse_json(bytes) {
        None => Err(AddonError::NotJson),
        Some(j) => {
            if let Json::Object(_) = &j {
                Ok(j)
            } else {
                Err(AddonError::NotJsonObject)
            }
        },
    }
}

/// The request an addon reads on its standard input: API version 1, the
/// `analyze` action, and the input's path, format, sample rate and centre
/// frequency.
pub open spec fn addon_request_view(path: Seq<char>, format: Seq<char>, rate: u32, center: u64) -> JsonView {
    JsonView::Object(
        seq![
            ("api_version"@, JsonView::Number(decimal(1))),
            ("action"@, JsonView::Text("analyze"@)),
            (
                "input"@,
                JsonView::Object(
                    seq![
                        ("path"@, JsonView::Text(path)),
                        ("format"@, JsonView::Text(format)),
                        ("sample_rate"@, JsonView::Number(decimal(rate as nat))),
                        ("center_hz"@, JsonView::Number(decimal(center as nat))),
                    ],
                ),
            ),
        ],
    )
}

pub fn addon_request(path: &str, format: &str, sample_rate: u32, center_hz: u64) -> (j: Json)
    ensures
        j@ == addon_request_view(path@, format@, sample_rate, center_hz),
{
    let mut input: Vec<(String, Json)> = Vec::new();
    input.push(entry("path", text(path)));
    input.push(entry("format", text(format)));
    input.push(entry("sample_rate", number(sample_rate as u64)));
    input.push(entry("center_hz", number(center_hz)));
    let ghost iv = member_views(input@);
    let input = object(input);
    let mut top: Vec<(String, Json)> = Vec::new();
    top.push(entry("api_version", number(1)));
    top.push(entry("action", text("analyze")));
    top.push(entry("input", input));
    let j = object(top);
    assert(iv =~= seq![
        ("path"@, JsonView::Text(path@)),
        ("format"@, JsonView::Text(format@)),
        ("sample_rate"@, JsonView::Number(decimal(sample_rate as nat))),
        ("center_hz"@, JsonView::Number(decimal(center_hz as nat))),
    ]);
    assert(member_views(top@) =~= seq![
        ("api_version"@, JsonView::Number(decimal(1))),
        ("action"@, JsonView::Text("analyze"@)),
        ("input"@, JsonView::Object(iv)),
    ]);
    j
}

} // verus!
