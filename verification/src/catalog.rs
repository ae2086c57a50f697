//! The crawl families, the engine that crawls each of them, and what every
//! engine's worker needs on a host before it may be given a slot.
use vstd::prelude::*;
use crate::text::str_eq;

verus! {

/// Every product family and the engine that crawls it.
pub const CATALOGS: [(&'static str, &'static str); 15] = [
    ("ios-app-examples", "mobile"),
    ("android-app-examples", "mobile"),
    ("macos-app-examples", "desktop"),
    ("desktop-app-examples", "desktop"),
    ("web-app-examples", "web"),
    ("dashboard-console-examples", "web"),
    ("tui-examples", "tui"),
    ("cli-examples", "cli"),
    ("onboarding-auth-examples", "web"),
    ("documentation-site-examples", "docs"),
    ("app-store-listing-examples", "web"),
    ("design-system-examples", "web"),
    ("report-evidence-examples", "web"),
    ("pricing-page-examples", "web"),
    ("landing-page-examples", "web"),
];

/// The program every crawl worker is: each engine submits its worker as
/// `cargo run --release`, so this probe is required of every family.
pub const WORKER_PROGRAM: [&'static str; 2] = ["cargo", "--version"];

/// The catalog table as pairs of character sequences.
pub open spec fn catalogs_spec() -> Seq<(Seq<char>, Seq<char>)> {
    CATALOGS@.map_values(|p: (&'static str, &'static str)| (p.0@, p.1@))
}

pub open spec fn pair_view(p: (&'static str, &'static str)) -> (Seq<char>, Seq<char>) {
    (p.0@, p.1@)
}

pub open spec fn pairs_view(v: Seq<(&'static str, &'static str)>) -> Seq<(Seq<char>, Seq<char>)> {
    v.map_values(|p: (&'static str, &'static str)| pair_view(p))
}

/// The first entry of `table` whose catalog is `name`.
pub open spec fn first_named(table: Seq<(Seq<char>, Seq<char>)>, name: Seq<char>) -> Option<int>
    decreases table.len(),
{
    if table.len() == 0 {
        None
    } else if table[0].0 == name {
        Some(0)
    } else {
        match first_named(table.drop_first(), name) {
            Some(i) => Some(i + 1),
            None => None,
        }
    }
}

pub proof fn lemma_first_named(table: Seq<(Seq<char>, Seq<char>)>, name: Seq<char>)
    ensures
        first_named(table, name) matches Some(i) ==> 0 <= i < table.len() && table[i].0 == name
            && forall|j: int| 0 <= j < i ==> table[j].0 != name,
        first_named(table, name) is None ==> forall|j: int|
            0 <= j < table.len() ==> table[j].0 != name,
    decreases table.len(),
{
    if table.len() > 0 && table[0].0 != name {
        lemma_first_named(table.drop_first(), name);
        assert forall|j: int| 1 <= j < table.len() implies table[j] == table.drop_first()[j
            - 1] by {}
    }
}

/// The catalog named `name` and its engine, if it is a known family.
pub open spec fn catalog_spec(name: Seq<char>) -> Option<(Seq<char>, Seq<char>)> {
    match first_named(catalogs_spec(), name) {
        Some(i) => Some(catalogs_spec()[i]),
        None => None,
    }
}

/// The families a selection names, in the order first named, each once.
pub open spec fn selection_spec(selected: Seq<Seq<char>>) -> Seq<(Seq<char>, Seq<char>)>
    decreases selected.len(),
{
    if selected.len() == 0 {
        Seq::empty()
    } else {
        let before = selection_spec(selected.drop_last());
        let entry = catalog_spec(selected.last()).unwrap();
        if before.contains(entry) {
            before
        } else {
            before.push(entry)
        }
    }
}

/// A selection of known families names each family once, every family it
/// names is one of those selected, and every selected family is in it.
pub proof fn law_selection_each_once(selected: Seq<Seq<char>>)
    requires
        forall|i: int| 0 <= i < selected.len() ==> catalog_spec(#[trigger] selected[i]) is Some,
    ensures
        selection_spec(selected).no_duplicates(),
        forall|i: int|
            0 <= i < selected.len() ==> selection_spec(selected).contains(
                #[trigger] catalog_spec(selected[i]).unwrap(),
            ),
        forall|k: int|
            0 <= k < selection_spec(selected).len() ==> exists|i: int|
                0 <= i < selected.len() && #[trigger] selection_spec(selected)[k] == catalog_spec(
                    selected[i],
                ).unwrap(),
    decreases selected.len(),
{
    if selected.len() > 0 {
        let d = selected.drop_last();
        assert forall|i: int| 0 <= i < d.len() implies catalog_spec(#[trigger] d[i]) is Some by {
            assert(d[i] == selected[i]);
        }
        law_selection_each_once(d);
        let before = selection_spec(d);
        let entry = catalog_spec(selected.last()).unwrap();
        let after = selection_spec(selected);
        assert forall|i: int| 0 <= i < selected.len() implies after.contains(
            #[trigger] catalog_spec(selected[i]).unwrap(),
        ) by {
            if i < d.len() {
                assert(d[i] == selected[i]);
                assert(before.contains(catalog_spec(d[i]).unwrap()));
                let k = choose|k: int| 0 <= k < before.len() && before[k] == catalog_spec(d[i]).unwrap();
                if !before.contains(entry) {
                    assert(after[k] == before[k]);
                }
            } else {
                if !before.contains(entry) {
                    assert(after[before.len() as int] == entry);
                }
            }
        }
        assert forall|k: int| 0 <= k < after.len() implies exists|i: int|
            0 <= i < selected.len() && #[trigger] after[k] == catalog_spec(selected[i]).unwrap() by {
            if k < before.len() {
                assert(after[k] == before[k]);
                let i = choose|i: int| 0 <= i < d.len() && before[k] == catalog_spec(d[i]).unwrap();
                assert(d[i] == selected[i]);
            } else {
                assert(after[k] == entry);
                assert(entry == catalog_spec(selected[selected.len() - 1]).unwrap());
            }
        }
    }
}

/// The given entry, as a predicate.
pub open spec fn is_entry(e: (Seq<char>, Seq<char>)) -> spec_fn((Seq<char>, Seq<char>)) -> bool {
    |x: (Seq<char>, Seq<char>)| x == e
}

/// The families a selection of known names names, in the order named.
pub open spec fn named_families(selected: Seq<Seq<char>>) -> Seq<(Seq<char>, Seq<char>)> {
    selected.map_values(|n: Seq<char>| catalog_spec(n).unwrap())
}

proof fn lemma_first_index_push<T>(m: Seq<T>, y: T, f: spec_fn(T) -> bool)
    ensures
        crate::text::first_index(m.push(y), f) == match crate::text::first_index(m, f) {
            Some(i) => Some(i),
            None => if f(y) {
                Some(m.len() as int)
            } else {
                None
            },
        },
{
    let n = m.push(y);
    crate::text::lemma_first_index_found(m, f);
    match crate::text::first_index(m, f) {
        Some(i) => {
            assert forall|j: int| 0 <= j < i implies !f(#[trigger] n[j]) by {
                assert(n[j] == m[j]);
            }
            assert(n[i] == m[i]);
            crate::text::lemma_first_index(n, f, i);
        },
        None => {
            assert forall|j: int| 0 <= j < m.len() implies !f(#[trigger] n[j]) by {
                assert(n[j] == m[j]);
            }
            if f(y) {
                crate::text::lemma_first_index(n, f, m.len() as int);
            } else {
                crate::text::lemma_first_index(n, f, n.len() as int);
            }
        },
    }
}

/// A selection of known families lists each family where it is first
/// named: families come in the order of their first naming.
pub proof fn law_selection_first_occurrence(selected: Seq<Seq<char>>)
    requires
        forall|i: int| 0 <= i < selected.len() ==> catalog_spec(#[trigger] selected[i]) is Some,
    ensures
        forall|k: int|
            0 <= k < selection_spec(selected).len() ==> crate::text::first_index(
                named_families(selected),
                is_entry(#[trigger] selection_spec(selected)[k]),
            ) is Some,
        forall|a: int, b: int|
            0 <= a < b < selection_spec(selected).len() ==> crate::text::first_index(
                named_families(selected),
                is_entry(#[trigger] selection_spec(selected)[a]),
            ).unwrap() < crate::text::first_index(
                named_families(selected),
                is_entry(#[trigger] selection_spec(selected)[b]),
            ).unwrap(),
    decreases selected.len(),
{
    if selected.len() > 0 {
        let d = selected.drop_last();
        assert forall|i: int| 0 <= i < d.len() implies catalog_spec(#[trigger] d[i]) is Some by {
            assert(d[i] == selected[i]);
        }
        law_selection_first_occurrence(d);
        law_selection_each_once(d);
        let before = selection_spec(d);
        let entry = catalog_spec(selected.last()).unwrap();
        let after = selection_spec(selected);
        let md = named_families(d);
        let ms = named_families(selected);
        assert(ms =~= md.push(entry));
        assert forall|e: (Seq<char>, Seq<char>)| before.contains(e) implies crate::text::first_index(
            ms,
            is_entry(e),
        ) == crate::text::first_index(md, is_entry(e)) by {
            let k = choose|k: int| 0 <= k < before.len() && before[k] == e;
            assert(before[k] == e);
            lemma_first_index_push(md, entry, is_entry(e));
        }
        if !before.contains(entry) {
            lemma_first_index_push(md, entry, is_entry(entry));
            crate::text::lemma_first_index_found(md, is_entry(entry));
            assert(crate::text::first_index(md, is_entry(entry)) is None) by {
                if let Some(j) = crate::text::first_index(md, is_entry(entry)) {
                    assert(md[j] == entry);
                    assert(md[j] == catalog_spec(d[j]).unwrap());
                    assert(before.contains(catalog_spec(d[j]).unwrap()));
                }
            }
            assert forall|k: int| 0 <= k < before.len() implies crate::text::first_index(
                md,
                is_entry(#[trigger] before[k]),
            ).unwrap() < d.len() by {
                crate::text::lemma_first_index_found(md, is_entry(before[k]));
            }
            assert forall|k: int| 0 <= k < after.len() implies crate::text::first_index(
                ms,
                is_entry(#[trigger] after[k]),
            ) is Some by {
                if k < before.len() {
                    assert(after[k] == before[k]);
                    assert(before.contains(before[k]));
                }
            }
            assert forall|a: int, b: int| 0 <= a < b < after.len() implies crate::text::first_index(
                ms,
                is_entry(#[trigger] after[a]),
            ).unwrap() < crate::text::first_index(ms, is_entry(#[trigger] after[b])).unwrap() by {
                assert(after[a] == before[a]);
                assert(before.contains(before[a]));
                if b < before.len() {
                    assert(after[b] == before[b]);
                    assert(before.contains(before[b]));
                }
            }
        } else {
            assert(after == before);
            assert forall|k: int| 0 <= k < after.len() implies crate::text::first_index(
                ms,
                is_entry(#[trigger] after[k]),
            ) is Some by {
                assert(before.contains(before[k]));
            }
            assert forall|a: int, b: int| 0 <= a < b < after.len() implies crate::text::first_index(
                ms,
                is_entry(#[trigger] after[a]),
            ).unwrap() < crate::text::first_index(ms, is_entry(#[trigger] after[b])).unwrap() by {
                assert(before.contains(before[a]));
                assert(before.contains(before[b]));
            }
        }
    }
}

/// A selection names an unknown family at position `i`, and only known ones
/// before it.
pub open spec fn first_unknown_at(selected: Seq<Seq<char>>, i: int) -> bool {
    &&& 0 <= i < selected.len()
    &&& catalog_spec(selected[i]) is None
    &&& forall|j: int| 0 <= j < i ==> catalog_spec(#[trigger] selected[j]) is Some
}

/// Why a selection of families was refused.
pub enum SelectionError {
    UnknownCatalog(String),
}

impl SelectionError {
    /// The diagnostic an operator reads.
    pub fn message(&self) -> (r: String)
        ensures
            match self {
                SelectionError::UnknownCatalog(name) => r@ == "unknown crawl catalog "@ + name@,
            },
    {
        match self {
            SelectionError::UnknownCatalog(name) => crate::text::concat(
                "unknown crawl catalog ",
                name.as_str(),
            ),
        }
    }
}

/// Look a family up by name.
pub fn find_catalog(name: &str) -> (r: Option<(&'static str, &'static str)>)
    ensures
        r matches Some(p) ==> catalog_spec(name@) == Some(pair_view(p)),
        r is None ==> catalog_spec(name@) is None,
{
    let table = CATALOGS;
    let ghost t = catalogs_spec();
    proof {
        lemma_first_named(t, name@);
    }
    let mut i: usize = 0;
    while i < 15
        invariant
            i <= 15,
            table@ == CATALOGS@,
            t == catalogs_spec(),
            t.len() == 15,
            forall|j: int| 0 <= j < 15 ==> #[trigger] t[j] == pair_view(CATALOGS@[j]),
            forall|j: int| 0 <= j < i ==> t[j].0 != name@,
            first_named(t, name@) matches Some(k) ==> 0 <= k < t.len() && t[k].0 == name@
                && forall|j: int| 0 <= j < k ==> t[j].0 != name@,
            first_named(t, name@) is None ==> forall|j: int| 0 <= j < t.len() ==> t[j].0 != name@,
        decreases 15 - i,
    {
        let entry = table[i];
        if str_eq(entry.0, name) {
            assert(t[i as int].0 == name@);
            assert(first_named(t, name@) == Some(i as int));
            return Some(entry);
        }
        i = i + 1;
    }
    None
}

/// The requested families, each once in the order first named; every family
/// when none is named.
pub fn selected_specs(selected: &[String]) -> (r: Result<
    Vec<(&'static str, &'static str)>,
    SelectionError,
>)
    ensures
        selected@.len() == 0 ==> (r matches Ok(v) && pairs_view(v@) == catalogs_spec()),
        selected@.len() > 0 ==> match r {
            Ok(v) => (forall|i: int|
                0 <= i < selected@.len() ==> catalog_spec(#[trigger] selected@[i]@) is Some)
                && pairs_view(v@) == selection_spec(
                selected@.map_values(|s: String| s@),
            ),
            Err(SelectionError::UnknownCatalog(name)) => exists|i: int|
                first_unknown_at(selected@.map_values(|s: String| s@), i) && name@
                    == selected@[i]@,
        },
        r is Err <==> exists|i: int|
            0 <= i < selected@.len() && catalog_spec(#[trigger] selected@[i]@) is None,
{
    let ghost names = selected@.map_values(|s: String| s@);
    let r = selected_specs_in_order(selected);
    proof {
        if let Err(SelectionError::UnknownCatalog(name)) = &r {
            let i = choose|i: int| first_unknown_at(names, i) && name@ == selected@[i]@;
            assert(names[i] == selected@[i]@);
        }
    }
    r
}

fn selected_specs_in_order(selected: &[String]) -> (r: Result<
    Vec<(&'static str, &'static str)>,
    SelectionError,
>)
    ensures
        selected@.len() == 0 ==> (r matches Ok(v) && pairs_view(v@) == catalogs_spec()),
        selected@.len() > 0 ==> match r {
            Ok(v) => (forall|i: int|
                0 <= i < selected@.len() ==> catalog_spec(#[trigger] selected@[i]@) is Some)
                && pairs_view(v@) == selection_spec(
                selected@.map_values(|s: String| s@),
            ),
            Err(SelectionError::UnknownCatalog(name)) => exists|i: int|
                first_unknown_at(selected@.map_values(|s: String| s@), i) && name@
                    == selected@[i]@,
        },
{
    if selected.len() == 0 {
        let mut all: Vec<(&'static str, &'static str)> = Vec::new();
        let table = CATALOGS;
        let mut i: usize = 0;
        while i < 15
            invariant
                i <= 15,
                table@ == CATALOGS@,
                all@ == CATALOGS@.take(i as int),
            decreases 15 - i,
        {
            all.push(table[i]);
            assert(CATALOGS@.take(i + 1) == CATALOGS@.take(i as int).push(CATALOGS@[i as int]));
            i = i + 1;
        }
        assert(CATALOGS@.take(15) =~= CATALOGS@);
        assert(pairs_view(all@) =~= catalogs_spec());
        return Ok(all);
    }
    let ghost names = selected@.map_values(|s: String| s@);
    let mut out: Vec<(&'static str, &'static str)> = Vec::new();
    let mut i: usize = 0;
    while i < selected.len()
        invariant
            i <= selected@.len(),
            names == selected@.map_values(|s: String| s@),
            forall|j: int| 0 <= j < i ==> catalog_spec(#[trigger] names[j]) is Some,
            pairs_view(out@) == selection_spec(names.take(i as int)),
        decreases selected.len() - i,
    {
        let found = find_catalog(selected[i].as_str());
        match found {
            None => {
                assert(first_unknown_at(names, i as int));
                return Err(SelectionError::UnknownCatalog(selected[i].clone()));
            },
            Some(spec) => {
                let ghost prefix = names.take(i as int);
                assert(names.take(i + 1).drop_last() =~= prefix);
                assert(names.take(i + 1).last() == names[i as int]);
                let mut present = false;
                let mut k: usize = 0;
                while k < out.len()
                    invariant
                        k <= out@.len(),
                        present == exists|j: int| 0 <= j < k && pair_view(out@[j]) == pair_view(spec),
                    decreases out.len() - k,
                {
                    if str_eq(out[k].0, spec.0) && str_eq(out[k].1, spec.1) {
                        assert(pair_view(out@[k as int]) == pair_view(spec));
                        present = true;
                    }
                    k = k + 1;
                }
                proof {
                    let pv = pairs_view(out@);
                    if present {
                        let j = choose|j: int| 0 <= j < k && pair_view(out@[j]) == pair_view(spec);
                        assert(pv[j] == pair_view(spec));
                        assert(pv.contains(pair_view(spec)));
                    } else {
                        if pv.contains(pair_view(spec)) {
                            let j = choose|j: int| 0 <= j < pv.len() && pv[j] == pair_view(spec);
                            assert(pair_view(out@[j]) == pair_view(spec));
                        }
                    }
                }
                if !present {
                    out.push(spec);
                    assert(pairs_view(out@) =~= selection_spec(prefix).push(pair_view(spec)));
                }
                i = i + 1;
            },
        }
    }
    assert(names.take(selected@.len() as int) =~= names);
    assert forall|j: int| 0 <= j < selected@.len() implies catalog_spec(
        #[trigger] selected@[j]@,
    ) is Some by {
        assert(names[j] == selected@[j]@);
    }
    Ok(out)
}

// ---------------------------------------------------------------------------
// Host preconditions

/// Probe commands as words.
pub open spec fn commands_view(v: Seq<Vec<&'static str>>) -> Seq<Seq<Seq<char>>> {
    v.map_values(|c: Vec<&'static str>| c@.map_values(|w: &'static str| w@))
}

/// What an engine's worker needs beyond the worker program itself.
pub open spec fn engine_extra_spec(engine: Seq<char>, catalog: Seq<char>) -> Seq<Seq<Seq<char>>> {
    if engine == "mobile"@ && catalog == "ios-app-examples"@ {
        seq![
            seq!["appium"@, "--version"@],
            seq!["appium"@, "driver"@, "list"@, "--installed"@],
            seq!["xcrun"@, "simctl"@, "list"@, "devices"@, "available"@],
        ]
    } else if engine == "mobile"@ {
        seq![
            seq!["appium"@, "--version"@],
            seq!["appium"@, "driver"@, "list"@, "--installed"@],
            seq!["adb"@, "version"@],
            seq!["adb"@, "devices"@, "-l"@],
        ]
    } else if engine == "web"@ {
        seq![seq!["node"@, "--version"@]]
    } else if engine == "cli"@ {
        seq![seq!["tmux"@, "-V"@]]
    } else if engine == "tui"@ {
        seq![seq!["tmux"@, "-V"@], seq!["git"@, "--version"@]]
    } else {
        Seq::empty()
    }
}

/// Every probe an engine's worker needs on the host: the worker program
/// first, then the engine's own runtime.
pub open spec fn engine_preconditions_spec(engine: Seq<char>, catalog: Seq<char>) -> Seq<
    Seq<Seq<char>>,
> {
    seq![seq!["cargo"@, "--version"@]] + engine_extra_spec(engine, catalog)
}

/// A word without `~`.
pub open spec fn word_free(w: Seq<char>) -> bool {
    forall|k: int| 0 <= k < w.len() ==> #[trigger] w[k] != '~'
}

/// A program named by itself, found on the search path: non-empty, with
/// neither `/` nor `~`.
pub open spec fn program_word(w: Seq<char>) -> bool {
    w.len() > 0 && forall|k: int| 0 <= k < w.len() ==> #[trigger] w[k] != '/' && w[k] != '~'
}

/// Every precondition an engine declares names a program (never a path,
/// so never `/usr/bin/git`), and no word of it holds a `~` for a shell to
/// expand.
pub proof fn law_preconditions_name_programs(engine: Seq<char>, catalog: Seq<char>)
    ensures
        forall|i: int|
            0 <= i < engine_preconditions_spec(engine, catalog).len() ==> {
                let c = #[trigger] engine_preconditions_spec(engine, catalog)[i];
                &&& c.len() > 0
                &&& program_word(c[0])
                &&& forall|j: int| 0 <= j < c.len() ==> word_free(#[trigger] c[j])
            },
{
    reveal_strlit("cargo");
    reveal_strlit("--version");
    reveal_strlit("appium");
    reveal_strlit("driver");
    reveal_strlit("list");
    reveal_strlit("--installed");
    reveal_strlit("xcrun");
    reveal_strlit("simctl");
    reveal_strlit("devices");
    reveal_strlit("available");
    reveal_strlit("adb");
    reveal_strlit("version");
    reveal_strlit("-l");
    reveal_strlit("node");
    reveal_strlit("tmux");
    reveal_strlit("-V");
    reveal_strlit("git");
    assert(word_free("cargo"@));
    assert(word_free("--version"@));
    assert(word_free("appium"@));
    assert(word_free("driver"@));
    assert(word_free("list"@));
    assert(word_free("--installed"@));
    assert(word_free("xcrun"@));
    assert(word_free("simctl"@));
    assert(word_free("devices"@));
    assert(word_free("available"@));
    assert(word_free("adb"@));
    assert(word_free("version"@));
    assert(word_free("-l"@));
    assert(word_free("node"@));
    assert(word_free("tmux"@));
    assert(word_free("-V"@));
    assert(word_free("git"@));
    assert(program_word("cargo"@));
    assert(program_word("appium"@));
    assert(program_word("xcrun"@));
    assert(program_word("adb"@));
    assert(program_word("node"@));
    assert(program_word("tmux"@));
    assert(program_word("git"@));
    let all = engine_preconditions_spec(engine, catalog);
    assert forall|i: int| 0 <= i < all.len() implies {
        let c = #[trigger] all[i];
        &&& c.len() > 0
        &&& program_word(c[0])
        &&& forall|j: int| 0 <= j < c.len() ==> word_free(#[trigger] c[j])
    } by {
        if i > 0 {
            assert(all[i] == engine_extra_spec(engine, catalog)[i - 1]);
        }
    }
}

/// What one engine's worker needs on the host before it may be given a slot.
pub fn engine_preconditions(engine: &str, catalog: &str) -> (r: Vec<Vec<&'static str>>)
    ensures
        commands_view(r@) == engine_preconditions_spec(engine@, catalog@),
{
    let mut required: Vec<Vec<&'static str>> = Vec::new();
    let program = WORKER_PROGRAM;
    required.push(vec![program[0], program[1]]);
    if str_eq(engine, "mobile") && str_eq(catalog, "ios-app-examples") {
        required.push(vec!["appium", "--version"]);
        required.push(vec!["appium", "driver", "list", "--installed"]);
        required.push(vec!["xcrun", "simctl", "list", "devices", "available"]);
    } else if str_eq(engine, "mobile") {
        required.push(vec!["appium", "--version"]);
        required.push(vec!["appium", "driver", "list", "--installed"]);
        required.push(vec!["adb", "version"]);
        required.push(vec!["adb", "devices", "-l"]);
    } else if str_eq(engine, "web") {
        required.push(vec!["node", "--version"]);
    } else if str_eq(engine, "cli") {
        required.push(vec!["tmux", "-V"]);
    } else if str_eq(engine, "tui") {
        required.push(vec!["tmux", "-V"]);
        required.push(vec!["git", "--version"]);
    }
    assert(commands_view(required@) =~~= engine_preconditions_spec(engine@, catalog@));
    required
}

} // verus!
