use vstd::prelude::*;

verus! {

/// A place where a file may be, and whether its path is to be made
/// canonical when the file is found there.
#[derive(Debug)]
pub struct Place {
    pub path: String,
    pub canonicalize: bool,
}

impl View for Place {
    type V = (Seq<char>, bool);

    open spec fn view(&self) -> (Seq<char>, bool) {
        (self.path@, self.canonicalize)
    }
}

/// What is known of the running executable's location.
#[derive(Debug)]
pub enum ExeLocation {
    /// The executable's path could not be found out.
    Unknown,
    /// The executable's path has no parent directory.
    NoParent,
    /// The directory that holds the executable.
    Dir(String),
}

/// The executable's directory, if it is known.
pub open spec fn exe_dir_of(exe: ExeLocation) -> Option<Seq<char>> {
    match exe {
        ExeLocation::Dir(d) => Some(d@),
        _ => None,
    }
}

/// The executable's directory, if it is known.
pub fn exe_dir(exe: &ExeLocation) -> (r: Option<&str>)
    ensures
        match exe_dir_of(*exe) {
            Some(d) => r matches Some(s) && s@ == d,
            None => r is None,
        },
{
    match exe {
        ExeLocation::Dir(d) => Some(d.as_str()),
        _ => None,
    }
}

/// What a search for a file asks for next.
pub enum PlaceProbe {
    /// Report whether a file exists at this path.
    Check(String),
    /// The file is at this place: the first that was reported to exist.
    Found(Place),
    /// None of the places holds the file.
    NotFound,
}

/// A search through an ordered list of places: each is checked in turn, and
/// the first that is reported to exist is the result; no place after it is
/// checked.
pub struct PlaceSearch {
    places: Vec<Place>,
    /// How many places were checked.
    count: usize,
    /// Whether the last place checked was reported to exist.
    found: bool,
}

impl PlaceSearch {
    #[verifier::type_invariant]
    closed spec fn wf(&self) -> bool {
        &&& self.count <= self.places@.len()
        &&& self.found ==> self.count > 0
    }

    /// The places, in the order they are checked.
    pub closed spec fn places(&self) -> Seq<(Seq<char>, bool)> {
        self.places@.map_values(|p: Place| p@)
    }

    /// The answers reported so far, one for each place checked, in order.
    pub closed spec fn answers(&self) -> Seq<bool> {
        Seq::new(self.count as nat, |i: int| self.found && i == self.count - 1)
    }

    /// Starts a search through `places`.
    pub fn new(places: Vec<Place>) -> (r: PlaceSearch)
        ensures
            r.places() == places@.map_values(|p: Place| p@),
            r.answers() == Seq::<bool>::empty(),
    {
        let r = PlaceSearch { places, count: 0, found: false };
        assert(r.answers() =~= Seq::<bool>::empty());
        r
    }

    /// Whether the search is over: a place was reported to exist, or every
    /// place was checked.
    pub open spec fn finished(&self) -> bool {
        (self.answers().len() > 0 && self.answers().last()) || self.answers().len()
            == self.places().len()
    }

    /// What to do now: check the next place while none was reported to
    /// exist; else the first place reported to exist, or nothing when every
    /// place was checked.
    pub fn step(&self) -> (p: PlaceProbe)
        ensures
            forall|i: int| 0 <= i < self.answers().len() - 1 ==> !#[trigger] self.answers()[i],
            match p {
                PlaceProbe::Check(path) => {
                    &&& !self.finished()
                    &&& path@ == self.places()[self.answers().len() as int].0
                },
                PlaceProbe::Found(place) => {
                    &&& self.answers().len() > 0
                    &&& self.answers().last()
                    &&& place@ == self.places()[self.answers().len() - 1]
                },
                PlaceProbe::NotFound => {
                    &&& self.answers().len() == self.places().len()
                    &&& forall|i: int| 0 <= i < self.answers().len() ==> !#[trigger] self.answers()[i]
                },
            },
    {
        proof {
            use_type_invariant(self);
        }
        let k = self.count;
        if self.found {
            let p = &self.places[k - 1];
            PlaceProbe::Found(Place { path: p.path.clone(), canonicalize: p.canonicalize })
        } else if k == self.places.len() {
            PlaceProbe::NotFound
        } else {
            PlaceProbe::Check(self.places[k].path.clone())
        }
    }

    /// Reports whether a file exists at the place that `step` asked about.
    pub fn record(&mut self, exists: bool)
        requires
            !old(self).finished(),
        ensures
            final(self).places() == old(self).places(),
            final(self).answers() == old(self).answers().push(exists),
    {
        proof {
            use_type_invariant(&*self);
        }
        let ghost prev = self.answers();
        let n = self.places.len();
        assert(self.count < n);
        self.count = self.count + 1;
        if exists {
            self.found = true;
        }
        assert(self.answers() =~= prev.push(exists));
    }
}

} // verus!
