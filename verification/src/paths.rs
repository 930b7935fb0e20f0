//! Where the workbench keeps its files, and which saved diagnostics it prunes.
use vstd::prelude::*;
use crate::text::{
    all_digits, chars_of, is_digit, is_digit_char, push_chars, string_of, text_less, text_lt,
};

verus! {

/// A Unix path is absolute when it starts with `/`.
pub open spec fn is_absolute(p: Seq<char>) -> bool {
    p.len() > 0 && p[0] == '/'
}

/// `base` joined with `p` as `PathBuf::push` does on Unix: an absolute `p`
/// replaces `base`; otherwise a `/` separates them unless `base` is empty or
/// already ends with one.
pub open spec fn joined_path(base: Seq<char>, p: Seq<char>) -> Seq<char> {
    if is_absolute(p) {
        p
    } else if base.len() > 0 && base.last() != '/' {
        base + seq!['/'] + p
    } else {
        base + p
    }
}

pub fn join(base: &str, p: &str) -> (r: String)
    ensures
        r@ == joined_path(base@, p@),
{
    let b = chars_of(base);
    let q = chars_of(p);
    if q.len() > 0 && q[0] == '/' {
        return string_of(&q);
    }
    let mut v = b;
    if v.len() > 0 && v[v.len() - 1] != '/' {
        v.push('/');
    }
    push_chars(&mut v, &q);
    string_of(&v)
}

pub open spec fn text_opt(t: Option<String>) -> Option<Seq<char>> {
    match t {
        Some(s) => Some(s@),
        None => None,
    }
}

/// The base directory named by an environment variable when it holds an
/// absolute path, else `fallback` under the home directory (or under `.`
/// without one).
pub open spec fn base_dir(var: Option<Seq<char>>, home: Option<Seq<char>>, fallback: Seq<char>) -> Seq<
    char,
> {
    match var {
        Some(v) if is_absolute(v) => v,
        _ => joined_path(
            match home {
                Some(h) => h,
                None => "."@,
            },
            fallback,
        ),
    }
}

fn base(var: &Option<String>, home: &Option<String>, fallback: &str) -> (r: String)
    ensures
        r@ == base_dir(text_opt(*var), text_opt(*home), fallback@),
{
    if let Some(v) = var {
        let c = chars_of(v.as_str());
        if c.len() > 0 && c[0] == '/' {
            return v.clone();
        }
    }
    match home {
        Some(h) => join(h.as_str(), fallback),
        None => join(".", fallback),
    }
}

/// The settings directory, from `XDG_CONFIG_HOME` and `HOME`.
pub fn config_dir(xdg_config_home: &Option<String>, home: &Option<String>) -> (r: String)
    ensures
        r@ == joined_path(
            base_dir(text_opt(*xdg_config_home), text_opt(*home), ".config"@),
            "thugsrf"@,
        ),
{
    let b = base(xdg_config_home, home, ".config");
    join(b.as_str(), "thugsrf")
}

/// The data directory, from `XDG_DATA_HOME` and `HOME`.
pub fn data_dir(xdg_data_home: &Option<String>, home: &Option<String>) -> (r: String)
    ensures
        r@ == joined_path(
            base_dir(text_opt(*xdg_data_home), text_opt(*home), ".local/share"@),
            "thugsrf"@,
        ),
{
    let b = base(xdg_data_home, home, ".local/share");
    join(b.as_str(), "thugsrf")
}

/// Durable failure diagnostics, kept across runs, in `logs` under the
/// settings directory.
pub fn log_dir(xdg_config_home: &Option<String>, home: &Option<String>) -> (r: String)
    ensures
        r@ == joined_path(
            joined_path(
                base_dir(text_opt(*xdg_config_home), text_opt(*home), ".config"@),
                "thugsrf"@,
            ),
            "logs"@,
        ),
{
    let c = config_dir(xdg_config_home, home);
    join(c.as_str(), "logs")
}

/// How many saved diagnostics of each kind are kept.
pub const KEPT_LOGS: usize = 20;

pub open spec fn starts_with(s: Seq<char>, p: Seq<char>) -> bool {
    s.len() >= p.len() && s.take(p.len() as int) == p
}

pub open spec fn log_prefix(kind: Seq<char>) -> Seq<char> {
    kind + seq!['-']
}

/// `name` is a saved diagnostic of `kind`: `<kind>-<millis>.log`, where the
/// stamp is one or more decimal digits.
pub open spec fn is_log_of(name: Seq<char>, kind: Seq<char>) -> bool {
    let p: int = kind.len() as int + 1;
    &&& name.len() >= p + 5
    &&& starts_with(name, log_prefix(kind))
    &&& name.subrange(name.len() - 4, name.len() as int) == seq!['.', 'l', 'o', 'g']
    &&& all_digits(name.subrange(p, name.len() - 4))
}

/// A file name is the diagnostic of at most one kind.
pub proof fn log_kind_is_unique(name: Seq<char>, a: Seq<char>, b: Seq<char>)
    requires
        is_log_of(name, a),
        is_log_of(name, b),
    ensures
        a == b,
{
    let n: int = name.len() as int;
    assert(name.take((a.len() + 1) as int)[a.len() as int] == '-');
    assert(name.take((b.len() + 1) as int)[b.len() as int] == '-');
    if a.len() < b.len() {
        let k = b.len() as int;
        assert(name[k] == '-');
        let d = name.subrange((a.len() + 1) as int, n - 4);
        assert(d[k - a.len() - 1] == name[k]);
        assert(is_digit(d[k - a.len() - 1]));
    } else if b.len() < a.len() {
        let k = a.len() as int;
        assert(name[k] == '-');
        let d = name.subrange((b.len() + 1) as int, n - 4);
        assert(d[k - b.len() - 1] == name[k]);
        assert(is_digit(d[k - b.len() - 1]));
    } else {
        assert(a =~= name.take(a.len() as int));
        assert(b =~= name.take(b.len() as int));
    }
}

/// Pruning the diagnostics of one kind never picks a diagnostic of another
/// kind.
pub proof fn pruning_keeps_other_kinds(names: Seq<String>, kind: Seq<char>, other: Seq<char>, i: int)
    requires
        0 <= i < names.len(),
        other != kind,
        is_log_of(names[i]@, other),
    ensures
        !is_stale(names, kind, i),
{
    if is_log_of(names[i]@, kind) {
        log_kind_is_unique(names[i]@, kind, other);
    }
}

/// How many of the first `n` names are diagnostics of `kind` and sort after `x`.
pub open spec fn later_logs(names: Seq<String>, kind: Seq<char>, x: Seq<char>, n: nat) -> nat
    decreases n,
{
    if n == 0 {
        0
    } else {
        later_logs(names, kind, x, (n - 1) as nat) + if is_log_of(names[n - 1]@, kind) && text_lt(
            x,
            names[n - 1]@,
        ) {
            1nat
        } else {
            0nat
        }
    }
}

/// A saved diagnostic of `kind` is stale when 20 newer ones of the same kind
/// (later in name order) exist; no other file is ever stale.
pub open spec fn is_stale(names: Seq<String>, kind: Seq<char>, i: int) -> bool {
    is_log_of(names[i]@, kind) && later_logs(names, kind, names[i]@, names.len())
        >= KEPT_LOGS
}

fn has_prefix(s: &Vec<char>, p: &Vec<char>) -> (r: bool)
    ensures
        r == starts_with(s@, p@),
{
    if s.len() < p.len() {
        return false;
    }
    let mut i: usize = 0;
    while i < p.len()
        invariant
            i <= p.len() <= s.len(),
            forall|j: int| 0 <= j < i ==> s@[j] == p@[j],
        decreases p.len() - i,
    {
        let a: char = s[i];
        let b: char = p[i];
        if a != b {
            return false;
        }
        i = i + 1;
    }
    assert(s@.take(p@.len() as int) =~= p@);
    true
}

/// Whether `name` is `<prefix><digits>.log` with at least one digit.
fn log_name(name: &Vec<char>, prefix: &Vec<char>, kind: Ghost<Seq<char>>) -> (r: bool)
    requires
        prefix@ == log_prefix(kind@),
    ensures
        r == is_log_of(name@, kind@),
{
    let n = name.len();
    let p = prefix.len();
    if n < 5 || n - 5 < p || !has_prefix(name, prefix) {
        return false;
    }
    if !(name[n - 4] == '.' && name[n - 3] == 'l' && name[n - 2] == 'o' && name[n - 1] == 'g') {
        assert(name@.subrange(n - 4, n as int)[0] == name@[n - 4]);
        assert(name@.subrange(n - 4, n as int)[1] == name@[n - 3]);
        assert(name@.subrange(n - 4, n as int)[2] == name@[n - 2]);
        assert(name@.subrange(n - 4, n as int)[3] == name@[n - 1]);
        return false;
    }
    assert(name@.subrange(n - 4, n as int) =~= seq!['.', 'l', 'o', 'g']);
    let mut i = p;
    while i < n - 4
        invariant
            p <= i <= n - 4,
            n == name@.len(),
            p == kind@.len() + 1,
            forall|j: int| p <= j < i ==> #[trigger] is_digit(name@[j]),
        decreases n - 4 - i,
    {
        if !is_digit_char(name[i]) {
            assert(name@.subrange(p as int, n - 4)[i - p] == name@[i as int]);
            return false;
        }
        i = i + 1;
    }
    assert forall|j: int| 0 <= j < name@.subrange(p as int, n - 4).len() implies #[trigger] is_digit(
        name@.subrange(p as int, n - 4)[j],
    ) by {
        assert(name@.subrange(p as int, n - 4)[j] == name@[p + j]);
    }
    true
}

/// The positions of the stale diagnostics of `kind` among the file names of
/// the log directory, in increasing order.
pub fn stale_logs(names: &Vec<String>, kind: &str) -> (r: Vec<usize>)
    ensures
        crate::addons::picks(r@, names@.len(), |i: int| is_stale(names@, kind@, i)),
{
    let mut prefix = chars_of(kind);
    prefix.push('-');
    assert(prefix@ == log_prefix(kind@));
    let n = names.len();
    let mut matching: Vec<bool> = Vec::new();
    let mut j: usize = 0;
    while j < n
        invariant
            j <= n,
            n == names@.len(),
            prefix@ == log_prefix(kind@),
            matching@.len() == j,
            forall|x: int| 0 <= x < j ==> #[trigger] matching@[x] == is_log_of(names@[x]@, kind@),
        decreases n - j,
    {
        let c = chars_of(names[j].as_str());
        matching.push(log_name(&c, &prefix, Ghost(kind@)));
        j = j + 1;
    }
    let ghost p = |i: int| is_stale(names@, kind@, i);
    let mut r: Vec<usize> = Vec::new();
    let mut i: usize = 0;
    while i < n
        invariant
            i <= n,
            n == names@.len(),
            prefix@ == log_prefix(kind@),
            matching@.len() == n,
            forall|x: int| 0 <= x < n ==> #[trigger] matching@[x] == is_log_of(names@[x]@, kind@),
            p == (|i: int| is_stale(names@, kind@, i)),
            crate::addons::picks(r@, i as nat, p),
            forall|x: int| 0 <= x < r@.len() ==> #[trigger] r@[x] < i,
        decreases n - i,
    {
        let mut later: usize = 0;
        let mut k: usize = 0;
        while k < n
            invariant
                k <= n,
                i < n,
                n == names@.len(),
                matching@.len() == n,
                forall|x: int| 0 <= x < n ==> #[trigger] matching@[x] == is_log_of(names@[x]@, kind@),
                later == later_logs(names@, kind@, names@[i as int]@, k as nat),
                later <= k,
            decreases n - k,
        {
            if matching[k] && text_less(names[i].as_str(), names[k].as_str()) {
                later = later + 1;
            }
            k = k + 1;
        }
        let take = matching[i] && later >= KEPT_LOGS;
        let ghost before = r@;
        assert(take == p(i as int));
        if take {
            r.push(i);
        }
        assert(take ==> r@ == before.push(i));
        assert(!take ==> r@ == before);
        proof {
            assert forall|a: usize| a < i + 1 && p(a as int) implies #[trigger] r@.contains(a) by {
                if a < i {
                    assert(before.contains(a));
                    let x = choose|x: int| 0 <= x < before.len() && before[x] == a;
                    assert(r@[x] == a);
                } else {
                    assert(take);
                    assert(r@[r@.len() - 1] == a);
                }
            }
        }
        i = i + 1;
    }
    r
}

} // verus!
