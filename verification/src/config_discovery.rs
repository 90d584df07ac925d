use vstd::prelude::*;

verus! {

/// The name of the configuration file.
pub const CONFIG_FILE: &'static str = ".mowz.toml";

/// An absolute directory: the names of its components below the root, as bytes.
#[derive(Debug, PartialEq, Eq)]
pub struct DirPath {
    pub components: Vec<Vec<u8>>,
}

impl View for DirPath {
    type V = Seq<Seq<u8>>;

    open spec fn view(&self) -> Seq<Seq<u8>> {
        self.components@.map_values(|c: Vec<u8>| c@)
    }
}

/// Whether two byte strings are equal.
fn bytes_equal(a: &Vec<u8>, b: &Vec<u8>) -> (r: bool)
    ensures
        r == (a@ == b@),
{
    if a.len() != b.len() {
        return false;
    }
    let mut i: usize = 0;
    while i < a.len()
        invariant
            a@.len() == b@.len(),
            i <= a@.len(),
            forall|k: int| 0 <= k < i ==> a@[k] == b@[k],
        decreases a@.len() - i,
    {
        if a[i] != b[i] {
            return false;
        }
        i = i + 1;
    }
    assert(a@ =~= b@);
    true
}

impl DirPath {
    /// Whether two directories are the same.
    pub fn same_as(&self, other: &DirPath) -> (r: bool)
        ensures
            r == (self@ == other@),
    {
        if self.components.len() != other.components.len() {
            return false;
        }
        let mut i: usize = 0;
        while i < self.components.len()
            invariant
                self@.len() == other@.len(),
                self@.len() == self.components@.len(),
                other@.len() == other.components@.len(),
                i <= self@.len(),
                forall|k: int| 0 <= k < i ==> self@[k] == other@[k],
            decreases self@.len() - i,
        {
            if !bytes_equal(&self.components[i], &other.components[i]) {
                assert(self@[i as int] != other@[i as int]);
                return false;
            }
            i = i + 1;
        }
        assert(self@ =~= other@);
        true
    }
}

/// `a` is a possible answer of `probe` for the directory `dir`.
pub open spec fn probe_answers<F: Fn(&DirPath) -> Result<bool, String>>(
    probe: F,
    dir: Seq<Seq<u8>>,
    a: Result<bool, String>,
) -> bool {
    exists|d: &DirPath| d@ == dir && call_ensures(probe, (d,), a)
}

/// What searching from `dir` upward for the configuration may give, when `probe`
/// says whether a directory holds it: the nearest directory that does; nothing at
/// the home directory (a boundary, which is not inspected) or beyond the root; or
/// the directory whose inspection failed.
pub open spec fn search_outcome<F: Fn(&DirPath) -> Result<bool, String>>(
    dir: Seq<Seq<u8>>,
    home: Option<Seq<Seq<u8>>>,
    probe: F,
    r: Result<Option<Seq<Seq<u8>>>, (Seq<Seq<u8>>, Seq<char>)>,
) -> bool
    decreases dir.len(),
{
    if home == Some(dir) {
        r == Ok::<Option<Seq<Seq<u8>>>, (Seq<Seq<u8>>, Seq<char>)>(None)
    } else {
        exists|a: Result<bool, String>|
            probe_answers(probe, dir, a) && match a {
                Err(e) => r == Err::<Option<Seq<Seq<u8>>>, (Seq<Seq<u8>>, Seq<char>)>((dir, e@)),
                Ok(true) => r == Ok::<Option<Seq<Seq<u8>>>, (Seq<Seq<u8>>, Seq<char>)>(Some(dir)),
                Ok(false) => if dir.len() == 0 {
                    r == Ok::<Option<Seq<Seq<u8>>>, (Seq<Seq<u8>>, Seq<char>)>(None)
                } else {
                    search_outcome(dir.drop_last(), home, probe, r)
                },
            }
    }
}

/// A directory whose inspection failed, with the reason.
#[derive(Debug, PartialEq, Eq)]
pub struct InspectError {
    pub dir: DirPath,
    pub detail: String,
}

pub open spec fn search_view(r: Result<Option<DirPath>, InspectError>) -> Result<
    Option<Seq<Seq<u8>>>,
    (Seq<Seq<u8>>, Seq<char>),
> {
    match r {
        Ok(Some(d)) => Ok(Some(d@)),
        Ok(None) => Ok(None),
        Err(e) => Err((e.dir@, e.detail@)),
    }
}

/// Finds the directory of the nearest configuration, from `start` upward, stopping
/// before the home directory and at the root.
pub fn find<F: Fn(&DirPath) -> Result<bool, String>>(start: DirPath, home: Option<&DirPath>, probe: &F) -> (r: Result<
    Option<DirPath>,
    InspectError,
>)
    requires
        forall|d: &DirPath| call_requires(*probe, (d,)),
    ensures
        search_outcome(
            start@,
            match home {
                Some(h) => Some(h@),
                None => None,
            },
            *probe,
            search_view(r),
        ),
    decreases start@.len(),
{
    let ghost home_view = match home {
        Some(h) => Some(h@),
        None => None::<Seq<Seq<u8>>>,
    };
    match home {
        Some(h) => {
            if h.same_as(&start) {
                return Ok(None);
            }
        },
        None => {},
    }
    let a = probe(&start);
    assert(probe_answers(*probe, start@, a));
    match a {
        Err(e) => Err(InspectError { dir: start, detail: e }),
        Ok(true) => Ok(Some(start)),
        Ok(false) => {
            let mut dir = start;
            let ghost before = dir@;
            if dir.components.len() == 0 {
                return Ok(None);
            }
            dir.components.pop();
            assert(dir@ =~= before.drop_last());
            find(dir, home, probe)
        },
    }
}

} // verus!
