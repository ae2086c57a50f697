//! Starting a crawl run: the request a `crawl start` command line makes, the
//! host assignments it carries as a map keyed in order, and the run id a
//! start without one is given.
use vstd::prelude::*;
use crate::cancel::pair_views;
use crate::json::{get_str_v, push_field, group_json_view, view_arr, view_obj, jstr, Json, JsonV};
use crate::registry::{key_is, lookup};
use crate::text::{
    chars_of, first_index, index_of, lemma_first_index, lemma_first_index_found, lemma_seq_lt_total,
    lemma_seq_lt_transitive, seq_lt, seq_lt_exec, split_once_char, split_once_char_exec, str_eq,
    string_of,
};

verus! {

// ---------------------------------------------------------------------------
// A map of strings kept in key order

pub open spec fn keys_of(pairs: Seq<(Seq<char>, Seq<char>)>) -> Seq<Seq<char>> {
    pairs.map_values(|p: (Seq<char>, Seq<char>)| p.0)
}

/// Keys strictly increasing in `String`'s order, as a `BTreeMap` holds them.
pub open spec fn key_ordered(pairs: Seq<(Seq<char>, Seq<char>)>) -> bool {
    forall|i: int, j: int| 0 <= i < j < pairs.len() ==> seq_lt(#[trigger] pairs[i].0, #[trigger] pairs[j].0)
}

proof fn lemma_lookup_at(pairs: Seq<(Seq<char>, Seq<char>)>, i: int)
    requires
        key_ordered(pairs),
        0 <= i < pairs.len(),
    ensures
        lookup(pairs, pairs[i].0) == Some(pairs[i].1),
{
    let k = pairs[i].0;
    let f = key_is(k);
    assert forall|j: int| 0 <= j < i implies !f(#[trigger] pairs[j]) by {
        lemma_seq_lt_total(pairs[j].0, pairs[j].0);
    }
    lemma_first_index(pairs, f, i);
}

proof fn lemma_lookup_absent(pairs: Seq<(Seq<char>, Seq<char>)>, k: Seq<char>)
    requires
        forall|j: int| 0 <= j < pairs.len() ==> #[trigger] pairs[j].0 != k,
    ensures
        lookup(pairs, k) is None,
{
    let f = key_is(k);
    lemma_first_index(pairs, f, pairs.len() as int);
}

proof fn lemma_lookup_found(pairs: Seq<(Seq<char>, Seq<char>)>, k: Seq<char>)
    ensures
        lookup(pairs, k) matches Some(v) ==> exists|j: int|
            0 <= j < pairs.len() && pairs[j].0 == k && #[trigger] pairs[j].1 == v,
        lookup(pairs, k) is None ==> forall|j: int| 0 <= j < pairs.len() ==> #[trigger] pairs[j].0 != k,
{
    let f = key_is(k);
    lemma_first_index_found(pairs, f);
    if let Some(i) = first_index(pairs, f) {
        assert(pairs[i].0 == k);
    }
    if first_index(pairs, f) is None {
        assert forall|j: int| 0 <= j < pairs.len() implies #[trigger] pairs[j].0 != k by {
            assert(!f(pairs[j]));
        }
    }
}

/// `map.insert(key, value)` on a map kept in key order.
pub fn map_insert(map: &mut Vec<(String, String)>, key: String, value: String)
    requires
        key_ordered(pair_views(old(map)@)),
    ensures
        key_ordered(pair_views(final(map)@)),
        forall|k: Seq<char>|
            #[trigger] lookup(pair_views(final(map)@), k) == if k == key@ {
                Some(value@)
            } else {
                lookup(pair_views(old(map)@), k)
            },
{
    let ghost before = pair_views(map@);
    let kv = chars_of(key.as_str());
    let mut p: usize = 0;
    while p < map.len() && seq_lt_exec(&chars_of(map[p].0.as_str()), &kv)
        invariant
            p <= map@.len(),
            before == pair_views(map@),
            before.len() == map@.len(),
            key_ordered(before),
            kv@ == key@,
            forall|j: int| 0 <= j < p ==> seq_lt(#[trigger] before[j].0, key@),
        decreases map.len() - p,
    {
        assert(before[p as int].0 == map@[p as int].0@);
        p = p + 1;
    }
    if p < map.len() && str_eq(map[p].0.as_str(), key.as_str()) {
        let ghost vv = value@;
        map.set(p, (key, value));
        let ghost after = pair_views(map@);
        assert(after =~= before.update(p as int, (before[p as int].0, vv)));
        assert(key_ordered(after)) by {
            assert forall|i: int, j: int| 0 <= i < j < after.len() implies seq_lt(
                #[trigger] after[i].0,
                #[trigger] after[j].0,
            ) by {
                assert(after[i].0 == before[i].0);
                assert(after[j].0 == before[j].0);
            }
        }
        assert forall|k: Seq<char>|
            #[trigger] lookup(after, k) == if k == kv@ {
                Some(vv)
            } else {
                lookup(before, k)
            } by {
            if k == kv@ {
                lemma_lookup_at(after, p as int);
            } else {
                lemma_lookup_found(before, k);
                lemma_lookup_found(after, k);
                if let Some(v) = lookup(before, k) {
                    let j = choose|j: int| 0 <= j < before.len() && before[j].0 == k && #[trigger] before[j].1 == v;
                    assert(after[j] == before[j]);
                    lemma_lookup_at(before, j);
                    lemma_lookup_at(after, j);
                } else {
                    assert forall|j: int| 0 <= j < after.len() implies #[trigger] after[j].0 != k by {
                        assert(after[j].0 == before[j].0);
                    }
                    lemma_lookup_absent(after, k);
                }
            }
        }
        return;
    }
    proof {
        if p < before.len() {
            lemma_seq_lt_total(before[p as int].0, kv@);
            assert(before[p as int].0 == map@[p as int].0@);
        }
    }
    let ghost kk = key@;
    let ghost vv = value@;
    map.insert(p, (key, value));
    let ghost after = pair_views(map@);
    assert(after =~= before.insert(p as int, (kk, vv)));
    assert(key_ordered(after)) by {
        assert forall|i: int, j: int| 0 <= i < j < after.len() implies seq_lt(
            #[trigger] after[i].0,
            #[trigger] after[j].0,
        ) by {
            if j < p {
            } else if j == p {
            } else if i < p {
                assert(after[j] == before[j - 1]);
                if j - 1 > p {
                    lemma_seq_lt_transitive(kk, before[p as int].0, before[j - 1].0);
                }
                lemma_seq_lt_transitive(before[i].0, kk, before[j - 1].0);
            } else if i == p {
                assert(after[j] == before[j - 1]);
                if j - 1 > p {
                    lemma_seq_lt_transitive(kk, before[p as int].0, before[j - 1].0);
                }
            } else {
                assert(after[i] == before[i - 1]);
                assert(after[j] == before[j - 1]);
            }
        }
    }
    assert forall|k: Seq<char>|
        #[trigger] lookup(after, k) == if k == kk {
            Some(vv)
        } else {
            lookup(before, k)
        } by {
        if k == kk {
            lemma_lookup_at(after, p as int);
        } else {
            lemma_lookup_found(before, k);
            if let Some(v) = lookup(before, k) {
                let j = choose|j: int| 0 <= j < before.len() && before[j].0 == k && #[trigger] before[j].1 == v;
                lemma_lookup_at(before, j);
                if j < p {
                    assert(after[j] == before[j]);
                    lemma_lookup_at(after, j);
                } else {
                    assert(after[j + 1] == before[j]);
                    lemma_lookup_at(after, j + 1);
                }
            } else {
                assert forall|j: int| 0 <= j < after.len() implies #[trigger] after[j].0 != k by {
                    if j < p {
                        assert(after[j] == before[j]);
                    } else if j > p {
                        assert(after[j] == before[j - 1]);
                    }
                }
                lemma_lookup_absent(after, k);
            }
        }
    }
}

// ---------------------------------------------------------------------------
// The command line of `crawl start`

/// Whether a map kept in key order holds exactly the entries of `m`.
pub open spec fn holds_map(pairs: Seq<(Seq<char>, Seq<char>)>, m: Map<Seq<char>, Seq<char>>) -> bool {
    forall|k: Seq<char>|
        #[trigger] lookup(pairs, k) == if m.dom().contains(k) {
            Some(m[k])
        } else {
            None
        }
}

/// What a `crawl start` command line asks for.
pub struct StartRequest {
    /// Host assignments by engine or catalog, `*` for every boundary, in
    /// key order.
    pub hosts: Vec<(String, String)>,
    pub catalogs: Vec<String>,
    pub record: Option<String>,
    pub run_id: Option<String>,
    pub bindings: Option<String>,
}

/// Why a `crawl start` command line is refused.
#[derive(Debug)]
pub enum StartArgumentError {
    /// The flag named here has no value after it.
    MissingValue(String),
    /// A `--host` mapping with an empty side.
    BadHostMapping,
    /// An argument no flag accepts.
    Unknown(String),
}

/// The refusals, as character sequences.
pub enum StartRefusal {
    MissingValue(Seq<char>),
    BadHostMapping,
    Unknown(Seq<char>),
}

pub open spec fn refusal_of(e: StartArgumentError) -> StartRefusal {
    match e {
        StartArgumentError::MissingValue(f) => StartRefusal::MissingValue(f@),
        StartArgumentError::BadHostMapping => StartRefusal::BadHostMapping,
        StartArgumentError::Unknown(a) => StartRefusal::Unknown(a@),
    }
}

pub open spec fn opt_view(o: Option<String>) -> Option<Seq<char>> {
    match o {
        Some(s) => Some(s@),
        None => None,
    }
}

/// Parse the rest of a `crawl start` command line from position `i`, given
/// what the arguments before it asked for: `--host ENGINE=TARGET` or
/// `--host CATALOG=TARGET` (a bare target applies to every boundary, `*`),
/// `--catalog` (repeatable), `--record`, `--run-id` and `--bindings`; a
/// later value of a flag replaces an earlier one.
pub open spec fn start_from(
    args: Seq<Seq<char>>,
    i: int,
    hosts: Map<Seq<char>, Seq<char>>,
    catalogs: Seq<Seq<char>>,
    record: Option<Seq<char>>,
    run_id: Option<Seq<char>>,
    bindings: Option<Seq<char>>,
) -> Result<
    (Map<Seq<char>, Seq<char>>, Seq<Seq<char>>, Option<Seq<char>>, Option<Seq<char>>, Option<Seq<char>>),
    StartRefusal,
>
    decreases args.len() - i,
{
    if i < 0 || i >= args.len() {
        Ok((hosts, catalogs, record, run_id, bindings))
    } else {
        let a = args[i];
        if a == "--host"@ || a == "--catalog"@ || a == "--record"@ || a == "--run-id"@ || a
            == "--bindings"@ {
            if i + 1 >= args.len() {
                Err(StartRefusal::MissingValue(a))
            } else {
                let v = args[i + 1];
                if a == "--host"@ {
                    match split_once_char(v, '=') {
                        Some((scope, target)) => if scope.len() == 0 || target.len() == 0 {
                            Err(StartRefusal::BadHostMapping)
                        } else {
                            start_from(args, i + 2, hosts.insert(scope, target), catalogs, record, run_id, bindings)
                        },
                        None => start_from(args, i + 2, hosts.insert("*"@, v), catalogs, record, run_id, bindings),
                    }
                } else if a == "--catalog"@ {
                    start_from(args, i + 2, hosts, catalogs.push(v), record, run_id, bindings)
                } else if a == "--record"@ {
                    start_from(args, i + 2, hosts, catalogs, Some(v), run_id, bindings)
                } else if a == "--run-id"@ {
                    start_from(args, i + 2, hosts, catalogs, record, Some(v), bindings)
                } else {
                    start_from(args, i + 2, hosts, catalogs, record, run_id, Some(v))
                }
            }
        } else {
            Err(StartRefusal::Unknown(a))
        }
    }
}

pub open spec fn start_spec(args: Seq<Seq<char>>) -> Result<
    (Map<Seq<char>, Seq<char>>, Seq<Seq<char>>, Option<Seq<char>>, Option<Seq<char>>, Option<Seq<char>>),
    StartRefusal,
> {
    start_from(args, 0, Map::empty(), Seq::empty(), None, None, None)
}

proof fn lemma_start_shift(
    prefix: Seq<Seq<char>>,
    tail: Seq<Seq<char>>,
    j: int,
    hosts: Map<Seq<char>, Seq<char>>,
    catalogs: Seq<Seq<char>>,
    record: Option<Seq<char>>,
    run_id: Option<Seq<char>>,
    bindings: Option<Seq<char>>,
)
    requires
        0 <= j,
    ensures
        start_from(prefix + tail, prefix.len() + j, hosts, catalogs, record, run_id, bindings) == start_from(
            tail,
            j,
            hosts,
            catalogs,
            record,
            run_id,
            bindings,
        ),
    decreases tail.len() - j,
{
    let all = prefix + tail;
    let i = prefix.len() + j;
    if j < tail.len() {
        assert(all[i] == tail[j]);
        if j + 1 < tail.len() {
            assert(all[i + 1] == tail[j + 1]);
            let v = tail[j + 1];
            lemma_start_shift(prefix, tail, j + 2, hosts, catalogs, record, run_id, bindings);
            lemma_start_shift(prefix, tail, j + 2, hosts, catalogs.push(v), record, run_id, bindings);
            lemma_start_shift(prefix, tail, j + 2, hosts, catalogs, Some(v), run_id, bindings);
            lemma_start_shift(prefix, tail, j + 2, hosts, catalogs, record, Some(v), bindings);
            lemma_start_shift(prefix, tail, j + 2, hosts, catalogs, record, run_id, Some(v));
            lemma_start_shift(prefix, tail, j + 2, hosts.insert("*"@, v), catalogs, record, run_id, bindings);
            if let Some((scope, target)) = split_once_char(v, '=') {
                lemma_start_shift(prefix, tail, j + 2, hosts.insert(scope, target), catalogs, record, run_id, bindings);
            }
        }
    }
}

proof fn lemma_start_concat(
    args: Seq<Seq<char>>,
    tail: Seq<Seq<char>>,
    i: int,
    hosts: Map<Seq<char>, Seq<char>>,
    catalogs: Seq<Seq<char>>,
    record: Option<Seq<char>>,
    run_id: Option<Seq<char>>,
    bindings: Option<Seq<char>>,
)
    requires
        0 <= i <= args.len(),
        start_from(args, i, hosts, catalogs, record, run_id, bindings) is Ok,
    ensures
        ({
            let (h, c, r, ru, b) = start_from(args, i, hosts, catalogs, record, run_id, bindings)->Ok_0;
            start_from(args + tail, i, hosts, catalogs, record, run_id, bindings) == start_from(
                tail,
                0,
                h,
                c,
                r,
                ru,
                b,
            )
        }),
    decreases args.len() - i,
{
    let all = args + tail;
    if i == args.len() {
        lemma_start_shift(args, tail, 0, hosts, catalogs, record, run_id, bindings);
    } else {
        assert(all[i] == args[i]);
        assert(i + 1 < args.len());
        assert(all[i + 1] == args[i + 1]);
        let v = args[i + 1];
        if args[i] == "--host"@ {
            match split_once_char(v, '=') {
                Some((scope, target)) => {
                    lemma_start_concat(args, tail, i + 2, hosts.insert(scope, target), catalogs, record, run_id, bindings);
                },
                None => {
                    lemma_start_concat(args, tail, i + 2, hosts.insert("*"@, v), catalogs, record, run_id, bindings);
                },
            }
        } else if args[i] == "--catalog"@ {
            lemma_start_concat(args, tail, i + 2, hosts, catalogs.push(v), record, run_id, bindings);
        } else if args[i] == "--record"@ {
            lemma_start_concat(args, tail, i + 2, hosts, catalogs, Some(v), run_id, bindings);
        } else if args[i] == "--run-id"@ {
            lemma_start_concat(args, tail, i + 2, hosts, catalogs, record, Some(v), bindings);
        } else {
            lemma_start_concat(args, tail, i + 2, hosts, catalogs, record, run_id, Some(v));
        }
    }
}

/// Reading a `crawl start` command line one flag further: `--catalog V`
/// adds `V` after the catalogs named so far; `--record V`, `--run-id V` and
/// `--bindings V` replace what was named before; `--host SCOPE=TARGET`
/// assigns `TARGET` to `SCOPE` and a bare `--host TARGET` to every
/// boundary (`*`), replacing an earlier assignment, while an empty side is
/// refused; a flag at the end without its value is refused naming the flag;
/// and any other argument is refused as unknown.
pub proof fn law_start_arguments_extend(args: Seq<Seq<char>>, flag: Seq<char>, v: Seq<char>, scope: Seq<char>)
    requires
        start_spec(args) is Ok,
    ensures
        ({
            let (h, c, r, ru, b) = start_spec(args)->Ok_0;
            &&& start_spec(args + seq!["--catalog"@, v]) == Ok::<_, StartRefusal>((h, c.push(v), r, ru, b))
            &&& start_spec(args + seq!["--record"@, v]) == Ok::<_, StartRefusal>((h, c, Some(v), ru, b))
            &&& start_spec(args + seq!["--run-id"@, v]) == Ok::<_, StartRefusal>((h, c, r, Some(v), b))
            &&& start_spec(args + seq!["--bindings"@, v]) == Ok::<_, StartRefusal>((h, c, r, ru, Some(v)))
            &&& !v.contains('=') ==> start_spec(args + seq!["--host"@, v]) == Ok::<_, StartRefusal>(
                (h.insert("*"@, v), c, r, ru, b),
            )
            &&& !scope.contains('=') && scope.len() > 0 && v.len() > 0 ==> start_spec(
                args + seq!["--host"@, scope + "="@ + v],
            ) == Ok::<_, StartRefusal>((h.insert(scope, v), c, r, ru, b))
            &&& !scope.contains('=') && (scope.len() == 0 || v.len() == 0) ==> start_spec(
                args + seq!["--host"@, scope + "="@ + v],
            ) == Err::<(Map<Seq<char>, Seq<char>>, Seq<Seq<char>>, Option<Seq<char>>, Option<Seq<char>>, Option<Seq<char>>), StartRefusal>(StartRefusal::BadHostMapping)
            &&& (flag == "--host"@ || flag == "--catalog"@ || flag == "--record"@ || flag == "--run-id"@
                || flag == "--bindings"@) ==> start_spec(args + seq![flag]) == Err::<(Map<Seq<char>, Seq<char>>, Seq<Seq<char>>, Option<Seq<char>>, Option<Seq<char>>, Option<Seq<char>>), StartRefusal>(
                StartRefusal::MissingValue(flag),
            )
            &&& !(flag == "--host"@ || flag == "--catalog"@ || flag == "--record"@ || flag == "--run-id"@
                || flag == "--bindings"@) ==> start_spec(args + seq![flag, v]) == Err::<(Map<Seq<char>, Seq<char>>, Seq<Seq<char>>, Option<Seq<char>>, Option<Seq<char>>, Option<Seq<char>>), StartRefusal>(
                StartRefusal::Unknown(flag),
            )
        }),
{
    let (h, c, r, ru, b) = start_spec(args)->Ok_0;
    reveal_strlit("--host");
    reveal_strlit("--catalog");
    reveal_strlit("--record");
    reveal_strlit("--run-id");
    reveal_strlit("--bindings");
    reveal_strlit("=");
    assert("--host"@.len() == 6 && "--catalog"@.len() == 9 && "--record"@.len() == 8 && "--run-id"@.len()
        == 8 && "--bindings"@.len() == 10);
    assert("--record"@[3] != "--run-id"@[3]);
    let tails = seq![
        seq!["--catalog"@, v],
        seq!["--record"@, v],
        seq!["--run-id"@, v],
        seq!["--bindings"@, v],
        seq!["--host"@, v],
        seq!["--host"@, scope + "="@ + v],
        seq![flag],
        seq![flag, v],
    ];
    assert forall|k: int| 0 <= k < tails.len() implies start_spec(args + #[trigger] tails[k]) == start_from(
        tails[k],
        0,
        h,
        c,
        r,
        ru,
        b,
    ) by {
        lemma_start_concat(args, tails[k], 0, Map::empty(), Seq::empty(), None, None, None);
    }
    assert(tails[0] == seq!["--catalog"@, v]);
    assert(tails[1] == seq!["--record"@, v]);
    assert(tails[2] == seq!["--run-id"@, v]);
    assert(tails[3] == seq!["--bindings"@, v]);
    assert(tails[4] == seq!["--host"@, v]);
    assert(tails[5] == seq!["--host"@, scope + "="@ + v]);
    assert(tails[6] == seq![flag]);
    assert(tails[7] == seq![flag, v]);
    assert(start_from(tails[0], 2, h, c.push(v), r, ru, b) == Ok::<_, StartRefusal>((h, c.push(v), r, ru, b)));
    assert(start_from(tails[1], 2, h, c, Some(v), ru, b) == Ok::<_, StartRefusal>((h, c, Some(v), ru, b)));
    assert(start_from(tails[2], 2, h, c, r, Some(v), b) == Ok::<_, StartRefusal>((h, c, r, Some(v), b)));
    assert(start_from(tails[3], 2, h, c, r, ru, Some(v)) == Ok::<_, StartRefusal>((h, c, r, ru, Some(v))));
    assert(start_from(tails[4], 2, h.insert("*"@, v), c, r, ru, b) == Ok::<_, StartRefusal>(
        (h.insert("*"@, v), c, r, ru, b),
    ));
    assert(start_from(tails[5], 2, h.insert(scope, v), c, r, ru, b) == Ok::<_, StartRefusal>(
        (h.insert(scope, v), c, r, ru, b),
    ));
    if !v.contains('=') {
        crate::text::lemma_first_where(v, crate::text::is_char('='));
        assert(index_of(v, '=') is None) by {
            if let Some(i) = index_of(v, '=') {
                assert(v[i] == '=');
            }
        }
    }
    if !scope.contains('=') {
        let w = scope + "="@ + v;
        assert(w[scope.len() as int] == '=');
        assert forall|j: int| 0 <= j < scope.len() implies !crate::text::is_char('=')(w[j]) by {
            assert(w[j] == scope[j]);
            if w[j] == '=' {
                assert(scope.contains(scope[j]));
            }
        }
        crate::text::lemma_first_where_is(w, crate::text::is_char('='), scope.len() as int);
        assert(w.take(scope.len() as int) =~= scope);
        assert(w.skip(scope.len() as int + 1) =~= v);
    }
}

/// Parse a `crawl start` command line.
pub fn parse_start_arguments(rest: &[String]) -> (r: Result<StartRequest, StartArgumentError>)
    ensures
        match start_spec(rest@.map_values(|a: String| a@)) {
            Ok((hosts, catalogs, record, run_id, bindings)) => r matches Ok(req) && key_ordered(
                pair_views(req.hosts@),
            ) && holds_map(pair_views(req.hosts@), hosts) && req.catalogs@.map_values(|c: String| c@)
                == catalogs && opt_view(req.record) == record && opt_view(req.run_id) == run_id
                && opt_view(req.bindings) == bindings,
            Err(e) => r matches Err(x) && refusal_of(x) == e,
        },
{
    let ghost args = rest@.map_values(|a: String| a@);
    let ghost total = start_spec(args);
    let mut hosts: Vec<(String, String)> = Vec::new();
    let mut catalogs: Vec<String> = Vec::new();
    let mut record: Option<String> = None;
    let mut run_id: Option<String> = None;
    let mut bindings: Option<String> = None;
    let ghost mut hm: Map<Seq<char>, Seq<char>> = Map::empty();
    proof {
        assert(pair_views(hosts@) =~= Seq::empty());
        assert forall|k: Seq<char>| #[trigger] lookup(pair_views(hosts@), k) == if hm.dom().contains(k) {
            Some(hm[k])
        } else {
            None
        } by {
            lemma_lookup_absent(pair_views(hosts@), k);
        }
        assert(catalogs@.map_values(|c: String| c@) =~= Seq::empty());
    }
    let mut i: usize = 0;
    while i < rest.len()
        invariant
            args == rest@.map_values(|a: String| a@),
            total == start_spec(args),
            key_ordered(pair_views(hosts@)),
            holds_map(pair_views(hosts@), hm),
            total == start_from(
                args,
                i as int,
                hm,
                catalogs@.map_values(|c: String| c@),
                opt_view(record),
                opt_view(run_id),
                opt_view(bindings),
            ),
        decreases rest.len() - i,
    {
        let a = rest[i].as_str();
        assert(args[i as int] == a@);
        let takes_value = str_eq(a, "--host") || str_eq(a, "--catalog") || str_eq(a, "--record")
            || str_eq(a, "--run-id") || str_eq(a, "--bindings");
        if !takes_value {
            return Err(StartArgumentError::Unknown(String::from_str(a)));
        }
        if i + 1 >= rest.len() {
            return Err(StartArgumentError::MissingValue(String::from_str(a)));
        }
        let v = &rest[i + 1];
        assert(args[i + 1] == v@);
        if str_eq(a, "--host") {
            match split_once_char_exec(&chars_of(v.as_str()), '=') {
                Some((scope, target)) => {
                    if scope.len() == 0 || target.len() == 0 {
                        return Err(StartArgumentError::BadHostMapping);
                    }
                    let ghost next = hm.insert(scope@, target@);
                    map_insert(&mut hosts, string_of(&scope), string_of(&target));
                    proof {
                        hm = next;
                    }
                },
                None => {
                    proof {
                        reveal_strlit("*");
                    }
                    let ghost next = hm.insert("*"@, v@);
                    map_insert(&mut hosts, String::from_str("*"), v.clone());
                    proof {
                        hm = next;
                    }
                },
            }
        } else if str_eq(a, "--catalog") {
            let ghost before = catalogs@.map_values(|c: String| c@);
            catalogs.push(v.clone());
            assert(catalogs@.map_values(|c: String| c@) =~= before.push(v@));
        } else if str_eq(a, "--record") {
            record = Some(v.clone());
        } else if str_eq(a, "--run-id") {
            run_id = Some(v.clone());
        } else {
            bindings = Some(v.clone());
        }
        i = i + 2;
    }
    Ok(StartRequest { hosts, catalogs, record, run_id, bindings })
}

/// The run id a start without `--run-id` takes from the time it began:
/// `crawl-` and the timestamp with `:` and `T` made `-`.
pub open spec fn default_run_id_spec(now: Seq<char>) -> Seq<char> {
    "crawl-"@ + now.map_values(|c: char| if c == ':' || c == 'T' { '-' } else { c })
}

pub fn default_run_id(now: &str) -> (r: String)
    ensures
        r@ == default_run_id_spec(now@),
{
    let v = chars_of(now);
    let mut out = chars_of("crawl-");
    let ghost prefix = out@;
    let mut i: usize = 0;
    while i < v.len()
        invariant
            i <= v@.len(),
            prefix == "crawl-"@,
            out@ == prefix + v@.take(i as int).map_values(|c: char| if c == ':' || c == 'T' { '-' } else { c }),
        decreases v.len() - i,
    {
        let c = v[i];
        out.push(if c == ':' || c == 'T' { '-' } else { c });
        assert(v@.take(i + 1) =~= v@.take(i as int).push(c));
        assert(out@ =~= prefix + v@.take(i + 1).map_values(|c: char| if c == ':' || c == 'T' { '-' } else { c }));
        i = i + 1;
    }
    assert(v@.take(v@.len() as int) =~= v@);
    string_of(&out)
}

// ---------------------------------------------------------------------------
// Placing a catalog

/// Why a catalog's records cannot be placed: no host for its engine, or a
/// web catalog without the admission service (with the registry's own
/// failure where discovery failed).
pub open spec fn placement_problem_spec(
    host: Result<Seq<char>, Seq<char>>,
    engine: Seq<char>,
    service_bound: bool,
    registry_diagnostic: Option<Seq<char>>,
) -> Option<Seq<char>> {
    match host {
        Err(message) => Some(message),
        Ok(_) => if engine == "web"@ && !service_bound {
            match registry_diagnostic {
                Some(d) => Some(d),
                None => Some(
                    "Stado service directory does not authorize consumer spis for weles-admission browser-evidence on a host advertising generic_browser_task"@,
                ),
            }
        } else {
            None
        },
    }
}

pub fn placement_problem(
    host: &Result<String, String>,
    engine: &str,
    service_bound: bool,
    registry_diagnostic: Option<&str>,
) -> (r: Option<String>)
    ensures
        opt_view(r) == placement_problem_spec(
            match host {
                Ok(h) => Ok(h@),
                Err(m) => Err(m@),
            },
            engine@,
            service_bound,
            match registry_diagnostic {
                Some(d) => Some(d@),
                None => None,
            },
        ),
{
    match host {
        Err(message) => Some(message.clone()),
        Ok(_) => if str_eq(engine, "web") && !service_bound {
            match registry_diagnostic {
                Some(d) => Some(String::from_str(d)),
                None => Some(
                    String::from_str(
                        "Stado service directory does not authorize consumer spis for weles-admission browser-evidence on a host advertising generic_browser_task",
                    ),
                ),
            }
        } else {
            None
        },
    }
}

/// A catalog whose records could not be placed, each already refused.
pub open spec fn unplaced_catalog_spec(catalog: Seq<char>, engine: Seq<char>, message: Seq<char>, records: Seq<JsonV>) -> JsonV {
    JsonV::Object(
        seq![
            ("catalog"@, JsonV::Str(catalog)),
            ("engine"@, JsonV::Str(engine)),
            ("host"@, JsonV::Null),
            ("state"@, JsonV::Str("unavailable"@)),
            ("host_preflight"@, JsonV::Object(seq![
                ("ready"@, JsonV::Bool(false)),
                ("diagnostic"@, JsonV::Object(seq![
                    ("code"@, JsonV::Str("runtime_placement_unavailable"@)),
                    ("message"@, JsonV::Str(message)),
                ])),
            ])),
            ("records"@, JsonV::Array(records)),
        ],
    )
}

pub fn unplaced_catalog(catalog: &str, engine: &str, message: &str, records: Vec<Json>) -> (r: Json)
    ensures
        r@ == unplaced_catalog_spec(catalog@, engine@, message@, view_arr(records@)),
{
    broadcast use group_json_view;

    let ghost rv = view_arr(records@);
    let mut diagnostic: Vec<(String, Json)> = Vec::new();
    assert(view_obj(diagnostic@) =~= Seq::empty());
    push_field(&mut diagnostic, "code", jstr("runtime_placement_unavailable"));
    push_field(&mut diagnostic, "message", jstr(message));
    let ghost dv = view_obj(diagnostic@);
    let mut preflight: Vec<(String, Json)> = Vec::new();
    assert(view_obj(preflight@) =~= Seq::empty());
    push_field(&mut preflight, "ready", Json::Bool(false));
    push_field(&mut preflight, "diagnostic", Json::Object(diagnostic));
    let ghost pv = view_obj(preflight@);
    let mut fields: Vec<(String, Json)> = Vec::new();
    assert(view_obj(fields@) =~= Seq::empty());
    push_field(&mut fields, "catalog", jstr(catalog));
    push_field(&mut fields, "engine", jstr(engine));
    push_field(&mut fields, "host", Json::Null);
    push_field(&mut fields, "state", jstr("unavailable"));
    push_field(&mut fields, "host_preflight", Json::Object(preflight));
    push_field(&mut fields, "records", Json::Array(records));
    assert(dv =~= seq![("code"@, JsonV::Str("runtime_placement_unavailable"@)), ("message"@, JsonV::Str(message@))]);
    assert(pv =~= seq![("ready"@, JsonV::Bool(false)), ("diagnostic"@, JsonV::Object(dv))]);
    assert(view_obj(fields@) =~= unplaced_catalog_spec(catalog@, engine@, message@, rv)->Object_0);
    Json::Object(fields)
}

/// A catalog placed on a host, its records planned and its host not yet
/// preflighted.
pub open spec fn placed_catalog_spec(catalog: Seq<char>, engine: Seq<char>, host: Seq<char>, records: Seq<JsonV>) -> JsonV {
    JsonV::Object(
        seq![
            ("catalog"@, JsonV::Str(catalog)),
            ("engine"@, JsonV::Str(engine)),
            ("host"@, JsonV::Str(host)),
            ("state"@, JsonV::Str("planned"@)),
            ("host_preflight"@, JsonV::Null),
            ("records"@, JsonV::Array(records)),
        ],
    )
}

pub fn placed_catalog(catalog: &str, engine: &str, host: &str, records: Vec<Json>) -> (r: Json)
    ensures
        r@ == placed_catalog_spec(catalog@, engine@, host@, view_arr(records@)),
{
    broadcast use group_json_view;

    let ghost rv = view_arr(records@);
    let mut fields: Vec<(String, Json)> = Vec::new();
    assert(view_obj(fields@) =~= Seq::empty());
    push_field(&mut fields, "catalog", jstr(catalog));
    push_field(&mut fields, "engine", jstr(engine));
    push_field(&mut fields, "host", jstr(host));
    push_field(&mut fields, "state", jstr("planned"));
    push_field(&mut fields, "host_preflight", Json::Null);
    push_field(&mut fields, "records", Json::Array(records));
    assert(view_obj(fields@) =~= placed_catalog_spec(catalog@, engine@, host@, rv)->Object_0);
    Json::Object(fields)
}

// ---------------------------------------------------------------------------
// A start against an existing run id

/// What a start does about the run file its run id names.
#[derive(Debug, Clone, Copy, PartialEq, Eq, Structural)]
pub enum StartDecision {
    /// No run has that id: the run is planned and created.
    Create,
    /// The run was made by this exact request: it is continued, never
    /// planned again.
    Continue,
    /// The run belongs to another request (its `request_digest` differs or
    /// is missing): the start is refused.
    Conflict,
}

pub open spec fn start_decision_spec(existing: Option<JsonV>, request_digest: Seq<char>) -> StartDecision {
    match existing {
        None => StartDecision::Create,
        Some(run) => if get_str_v(run, "request_digest"@) == Some(request_digest) {
            StartDecision::Continue
        } else {
            StartDecision::Conflict
        },
    }
}

/// Whether a start with this request digest creates, continues or is
/// refused by the run already stored under its run id.
pub fn start_decision(existing: Option<&Json>, request_digest: &str) -> (r: StartDecision)
    ensures
        r == start_decision_spec(
            match existing {
                Some(run) => Some(run@),
                None => None,
            },
            request_digest@,
        ),
{
    match existing {
        None => StartDecision::Create,
        Some(run) => match run.get_str("request_digest") {
            Some(digest) => if str_eq(digest, request_digest) {
                StartDecision::Continue
            } else {
                StartDecision::Conflict
            },
            None => StartDecision::Conflict,
        },
    }
}

} // verus!
