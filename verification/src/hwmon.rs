use vstd::prelude::*;
use vstd::seq_lib::{to_multiset_build, to_multiset_insert};

use crate::text::{
    decimal, join_path, joined_path, lemma_text_le_total,
    lemma_text_le_transitive, same_text, text_le, text_le_exec, to_decimal, trim, trimmed,
    views,
};

verus! {

/// Whether paths are in the order that `PathBuf`'s ordering gives the
/// entries of one directory: by their text, code point by code point.
pub open spec fn paths_sorted(s: Seq<Seq<char>>) -> bool {
    forall|a: int, b: int| 0 <= a < b < s.len() ==> text_le(#[trigger] s[a], #[trigger] s[b])
}

/// Sorts the entries of one directory by path.
pub fn sort_paths(paths: Vec<String>) -> (r: Vec<String>)
    ensures
        paths_sorted(views(r@)),
        views(r@).to_multiset() == views(paths@).to_multiset(),
{
    let n = paths.len();
    let mut out: Vec<String> = Vec::new();
    let mut i: usize = 0;
    assert(views(paths@).take(0) =~= Seq::<Seq<char>>::empty());
    assert(views(out@) =~= Seq::<Seq<char>>::empty());
    while i < n
        invariant
            n == paths@.len(),
            i <= n,
            paths_sorted(views(out@)),
            views(out@).to_multiset() == views(paths@).take(i as int).to_multiset(),
        decreases n - i,
    {
        let p = paths[i].clone();
        let ghost x = p@;
        let mut j: usize = 0;
        while j < out.len() && text_le_exec(out[j].as_str(), p.as_str())
            invariant
                j <= out@.len(),
                x == p@,
                forall|k: int| 0 <= k < j ==> text_le(#[trigger] views(out@)[k], x),
            decreases out@.len() - j,
        {
            j = j + 1;
        }
        let ghost old_v = views(out@);
        proof {
            if j < out@.len() {
                lemma_text_le_total(old_v[j as int], x);
                assert forall|k: int| j < k < old_v.len() implies text_le(x, #[trigger] old_v[k]) by {
                    assert(text_le(old_v[j as int], old_v[k]));
                    lemma_text_le_transitive(x, old_v[j as int], old_v[k]);
                }
            }
        }
        out.insert(j, p);
        let ghost new_v = views(out@);
        assert(new_v =~= old_v.insert(j as int, x));
        proof {
            old_v.insert_ensures(j as int, x);
            assert forall|a: int, b: int| 0 <= a < b < new_v.len() implies #[trigger] text_le(
                new_v[a],
                new_v[b],
            ) by {
                if b < j {
                } else if a < j && b == j {
                } else if a < j && b > j {
                    lemma_text_le_transitive(new_v[a], x, new_v[b]);
                } else if a == j {
                } else {
                    assert(new_v[a] == old_v[a - 1]);
                    assert(new_v[b] == old_v[b - 1]);
                }
            }
            to_multiset_insert(old_v, j as int, x);
            assert(views(paths@).take(i + 1) =~= views(paths@).take(i as int).push(x));
            to_multiset_build(views(paths@).take(i as int), x);
        }
        i = i + 1;
    }
    assert(views(paths@).take(n as int) =~= views(paths@));
    out
}


/// One entry of `/sys/class/hwmon`: its path, and the contents of its
/// `name` file when that could be read.
pub struct HwmonEntry {
    pub path: String,
    pub name: Option<String>,
}

impl View for HwmonEntry {
    type V = (Seq<char>, Option<Seq<char>>);

    open spec fn view(&self) -> (Seq<char>, Option<Seq<char>>) {
        (
            self.path@,
            match self.name {
                Some(n) => Some(n@),
                None => None,
            },
        )
    }
}

/// The entries whose name could be read, each with its trimmed name, in order.
pub open spec fn indexed(es: Seq<(Seq<char>, Option<Seq<char>>)>) -> Seq<(Seq<char>, Seq<char>)>
    decreases es.len(),
{
    if es.len() == 0 {
        seq![]
    } else {
        let rest = indexed(es.drop_last());
        match es.last().1 {
            Some(n) => rest.push((es.last().0, trimmed(n))),
            None => rest,
        }
    }
}

/// The paths of the entries whose driver name is `driver`, in order.
pub open spec fn driver_paths(ls: Seq<(Seq<char>, Seq<char>)>, driver: Seq<char>) -> Seq<
    Seq<char>,
>
    decreases ls.len(),
{
    if ls.len() == 0 {
        seq![]
    } else {
        let rest = driver_paths(ls.drop_last(), driver);
        if ls.last().1 == driver {
            rest.push(ls.last().0)
        } else {
            rest
        }
    }
}

/// The paths filed under a driver are the paths of the entries whose name
/// could be read and, trimmed, is that driver's name, in the order given.
pub proof fn law_driver_paths_are_named_entries(
    es: Seq<(Seq<char>, Option<Seq<char>>)>,
    driver: Seq<char>,
)
    ensures
        driver_paths(indexed(es), driver) == es.filter(
            |e: (Seq<char>, Option<Seq<char>>)| e.1 is Some && trimmed(e.1->0) == driver,
        ).map_values(|e: (Seq<char>, Option<Seq<char>>)| e.0),
    decreases es.len(),
{
    let pred = |e: (Seq<char>, Option<Seq<char>>)| e.1 is Some && trimmed(e.1->0) == driver;
    let path = |e: (Seq<char>, Option<Seq<char>>)| e.0;
    if es.len() == 0 {
        assert(es.filter(pred) =~= Seq::<(Seq<char>, Option<Seq<char>>)>::empty());
        assert(es.filter(pred).map_values(path) =~= Seq::<Seq<char>>::empty());
    } else {
        let init = es.drop_last();
        let x = es.last();
        law_driver_paths_are_named_entries(init, driver);
        assert(es =~= init.push(x));
        init.lemma_filter_push(x, pred);
        let ls = indexed(es);
        let ls0 = indexed(init);
        match x.1 {
            Some(n) => {
                assert(ls == ls0.push((x.0, trimmed(n))));
                assert(ls.drop_last() =~= ls0);
                if pred(x) {
                    assert(init.filter(pred).push(x).map_values(path) =~= init.filter(
                        pred,
                    ).map_values(path).push(x.0));
                }
            },
            None => {
                assert(ls == ls0);
            },
        }
    }
}

/// The hwmon entries grouped by driver name. Numbering is stable for a
/// kernel boot, so the index is built once.
pub struct HwmonIndex {
    entries: Vec<(String, String)>,
}

impl HwmonIndex {
    /// The indexed entries: path and trimmed driver name, in path order.
    pub closed spec fn listing(&self) -> Seq<(Seq<char>, Seq<char>)> {
        self.entries@.map_values(|e: (String, String)| (e.0@, e.1@))
    }

    /// The paths filed under `driver`; none when there are none.
    pub open spec fn paths_of(&self, driver: Seq<char>) -> Option<Seq<Seq<char>>> {
        let ps = driver_paths(self.listing(), driver);
        if ps.len() > 0 {
            Some(ps)
        } else {
            None
        }
    }

    /// Indexes the entries of `/sys/class/hwmon`, given in path order (see
    /// `sort_paths`); entries whose name could not be read are left out.
    pub fn build(entries: Vec<HwmonEntry>) -> (r: HwmonIndex)
        ensures
            r.listing() == indexed(entries@.map_values(|e: HwmonEntry| e@)),
    {
        let ghost all = entries@.map_values(|e: HwmonEntry| e@);
        let n = entries.len();
        let mut out: Vec<(String, String)> = Vec::new();
        let mut i: usize = 0;
        while i < n
            invariant
                n == entries@.len(),
                all == entries@.map_values(|e: HwmonEntry| e@),
                i <= n,
                out@.map_values(|e: (String, String)| (e.0@, e.1@)) == indexed(all.take(i as int)),
            decreases n - i,
        {
            let e = &entries[i];
            assert(all.take(i + 1).drop_last() =~= all.take(i as int));
            assert(all.take(i + 1).last() == e@);
            match &e.name {
                Some(name) => {
                    let ghost before = out@;
                    out.push((e.path.clone(), trim(name.as_str())));
                    assert(out@.map_values(|e: (String, String)| (e.0@, e.1@)) =~= before.map_values(
                        |e: (String, String)| (e.0@, e.1@),
                    ).push((e.path@, trimmed(name@))));
                },
                None => {},
            }
            i = i + 1;
        }
        assert(all.take(n as int) =~= all);
        HwmonIndex { entries: out }
    }

    /// The paths of the hwmon entries whose driver name is `driver`, in
    /// path order; none when there are none.
    pub fn get(&self, driver: &str) -> (r: Option<Vec<String>>)
        ensures
            match self.paths_of(driver@) {
                Some(ps) => r matches Some(v) && views(v@) == ps,
                None => r is None,
            },
    {
        let ghost ls = self.listing();
        let n = self.entries.len();
        let mut out: Vec<String> = Vec::new();
        let mut i: usize = 0;
        while i < n
            invariant
                n == self.entries@.len(),
                ls == self.listing(),
                i <= n,
                views(out@) == driver_paths(ls.take(i as int), driver@),
            decreases n - i,
        {
            let e = &self.entries[i];
            assert(ls.take(i + 1).drop_last() =~= ls.take(i as int));
            assert(ls.take(i + 1).last() == (e.0@, e.1@));
            if same_text(e.1.as_str(), driver) {
                let ghost before = out@;
                out.push(e.0.clone());
                assert(views(out@) =~= views(before).push(e.0@));
            }
            i = i + 1;
        }
        assert(ls.take(n as int) =~= ls);
        if out.len() > 0 {
            Some(out)
        } else {
            None
        }
    }
}

/// The path of `file` in the first hwmon entry of `driver`.
pub fn first_temp_path(index: &HwmonIndex, driver: &str, file: &str) -> (r: Option<String>)
    ensures
        match index.paths_of(driver@) {
            Some(ps) => r matches Some(p) && p@ == joined_path(ps[0], file@),
            None => r is None,
        },
{
    match index.get(driver) {
        Some(v) => Some(join_path(v[0].as_str(), file)),
        None => None,
    }
}

/// The path of `file` in the `n`-th hwmon entry of `driver`, if there is one.
pub fn nth_temp_path(index: &HwmonIndex, driver: &str, file: &str, n: usize) -> (r: Option<String>)
    ensures
        match index.paths_of(driver@) {
            Some(ps) if n < ps.len() => r matches Some(p) && p@ == joined_path(ps[n as int], file@),
            _ => r is None,
        },
{
    match index.get(driver) {
        Some(v) => if n < v.len() {
            Some(join_path(v[n].as_str(), file))
        } else {
            None
        },
        None => None,
    }
}

/// The highest `tempN` slot that a labelled search looks at.
pub const LAST_TEMP_SLOT: u64 = 20;

/// A labelled search looks at the slots `temp1` to `temp20` of each entry,
/// and the file for a slot is `temp<slot><suffix>` inside the entry.
pub proof fn law_temp_files(dir: Seq<char>, slot: nat, suffix: Seq<char>)
    ensures
        LAST_TEMP_SLOT == 20,
        temp_file(dir, slot, suffix) == joined_path(dir, "temp"@ + decimal(slot) + suffix),
{
}

/// The path of `temp{slot}{suffix}` in `dir`.
pub open spec fn temp_file(dir: Seq<char>, slot: nat, suffix: Seq<char>) -> Seq<char> {
    joined_path(dir, "temp"@ + decimal(slot) + suffix)
}

fn temp_file_exec(dir: &str, slot: u64, suffix: &str) -> (r: String)
    ensures
        r@ == temp_file(dir@, slot as nat, suffix@),
{
    let mut name = String::from_str("temp");
    let num = to_decimal(slot);
    name.append(num.as_str());
    name.append(suffix);
    join_path(dir, name.as_str())
}

/// What a labelled temperature search asks for next.
pub enum TempProbe {
    /// Read this `tempN_label` file and report what it held.
    ReadLabel(String),
    /// The label matched: the temperature is in this `tempN_input` file.
    ReadInput(String),
    /// No sensor carries the label.
    NotFound,
}

/// The search for the sensor of one driver that carries a given label: the
/// `temp1_label` to `temp20_label` files of each of the driver's hwmon
/// entries in turn, until one reads, trimmed, as the label.
pub struct LabelSearch {
    dirs: Vec<String>,
    label: String,
    dir: usize,
    slot: u64,
    found: bool,
}

impl LabelSearch {
    #[verifier::type_invariant]
    closed spec fn wf(&self) -> bool {
        &&& self.dir <= self.dirs@.len()
        &&& 1 <= self.slot <= LAST_TEMP_SLOT
        &&& self.found ==> self.dir < self.dirs@.len()
    }

    /// The entries searched, in order.
    pub closed spec fn dirs(&self) -> Seq<Seq<char>> {
        views(self.dirs@)
    }

    /// The label looked for.
    pub closed spec fn label(&self) -> Seq<char> {
        self.label@
    }

    /// The entry being searched.
    pub closed spec fn dir(&self) -> nat {
        self.dir as nat
    }

    /// The slot being looked at.
    pub closed spec fn slot(&self) -> nat {
        self.slot as nat
    }

    /// Whether the label at the current slot matched.
    pub closed spec fn found(&self) -> bool {
        self.found
    }

    /// What to do now: read the current label file, or the input file of the
    /// matching sensor, or give up when every entry was searched.
    pub fn step(&self) -> (p: TempProbe)
        ensures
            if self.found() {
                p matches TempProbe::ReadInput(f) && f@ == temp_file(
                    self.dirs()[self.dir() as int],
                    self.slot(),
                    "_input"@,
                )
            } else if self.dir() == self.dirs().len() {
                p is NotFound
            } else {
                p matches TempProbe::ReadLabel(f) && f@ == temp_file(
                    self.dirs()[self.dir() as int],
                    self.slot(),
                    "_label"@,
                )
            },
    {
        proof {
            use_type_invariant(self);
        }
        if self.found {
            TempProbe::ReadInput(temp_file_exec(self.dirs[self.dir].as_str(), self.slot, "_input"))
        } else if self.dir == self.dirs.len() {
            TempProbe::NotFound
        } else {
            TempProbe::ReadLabel(temp_file_exec(self.dirs[self.dir].as_str(), self.slot, "_label"))
        }
    }

    /// Reports what the label file that `step` asked for held (none when it
    /// could not be read): a match ends the search, else it moves to the
    /// next slot, and after the last slot to the next entry.
    pub fn record(&mut self, label_file: Option<String>)
        requires
            !old(self).found(),
            old(self).dir() < old(self).dirs().len(),
        ensures
            final(self).dirs() == old(self).dirs(),
            final(self).label() == old(self).label(),
            if label_file matches Some(l) && trimmed(l@) == old(self).label() {
                &&& final(self).found()
                &&& final(self).dir() == old(self).dir()
                &&& final(self).slot() == old(self).slot()
            } else {
                &&& !final(self).found()
                &&& if old(self).slot() == LAST_TEMP_SLOT {
                    final(self).dir() == old(self).dir() + 1 && final(self).slot() == 1
                } else {
                    final(self).dir() == old(self).dir() && final(self).slot() == old(self).slot()
                        + 1
                }
            },
    {
        proof {
            use_type_invariant(&*self);
        }
        let matched = match &label_file {
            Some(l) => {
                let t = trim(l.as_str());
                same_text(t.as_str(), self.label.as_str())
            },
            None => false,
        };
        let n = self.dirs.len();
        assert(self.dir < n);
        if matched {
            self.found = true;
        } else if self.slot == LAST_TEMP_SLOT {
            self.dir = self.dir + 1;
            self.slot = 1;
        } else {
            self.slot = self.slot + 1;
        }
    }
}

/// Starts the search for the temperature sensor of `driver` labelled `label`.
pub fn label_temp(index: &HwmonIndex, driver: &str, label: &str) -> (r: LabelSearch)
    ensures
        r.dirs() == match index.paths_of(driver@) {
            Some(ps) => ps,
            None => Seq::<Seq<char>>::empty(),
        },
        r.label() == label@,
        r.dir() == 0,
        r.slot() == 1,
        !r.found(),
{
    let dirs = match index.get(driver) {
        Some(v) => v,
        None => {
            let v: Vec<String> = Vec::new();
            assert(views(v@) =~= Seq::<Seq<char>>::empty());
            v
        },
    };
    LabelSearch { dirs, label: String::from_str(label), dir: 0, slot: 1, found: false }
}

} // verus!
