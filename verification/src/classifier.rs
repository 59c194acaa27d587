//! The command classifier and the executable index it consults.
use vstd::prelude::*;
use vstd::string::*;

verus! {

/// What a command token refers to. Exactly one variant per classification.
#[derive(Clone, Debug, PartialEq, Eq)]
pub enum Kind {
    /// The token names an existing filesystem entry.
    Path(String),
    /// The internal action `view`.
    View,
    /// The internal action `write`.
    Write,
    /// The internal action `shortcuts`.
    Shortcuts,
    /// The token names an executable found on the search path.
    External(String),
    /// None of the above.
    NotFound,
}

pub enum KindView {
    Path(Seq<char>),
    View,
    Write,
    Shortcuts,
    External(Seq<char>),
    NotFound,
}

impl View for Kind {
    type V = KindView;

    open spec fn view(&self) -> KindView {
        match self {
            Kind::Path(path) => KindView::Path(path@),
            Kind::View => KindView::View,
            Kind::Write => KindView::Write,
            Kind::Shortcuts => KindView::Shortcuts,
            Kind::External(name) => KindView::External(name@),
            Kind::NotFound => KindView::NotFound,
        }
    }
}

/// What the host saw on disk when it looked for a token: whether the token
/// exists as a path as it stands, whether it exists when joined to the
/// working directory, and whether what was found is a directory.
#[derive(Clone, Copy, Debug, PartialEq, Eq, Structural)]
pub struct PathProbe {
    pub as_given: bool,
    pub in_working_dir: bool,
    pub directory: bool,
}

impl PathProbe {
    /// The token resolves to a path, one way or the other.
    pub open spec fn resolves(self) -> bool {
        self.as_given || self.in_working_dir
    }

    /// The token resolves to a directory.
    pub open spec fn is_directory(self) -> bool {
        self.resolves() && self.directory
    }

    /// Whether the token resolves to a path.
    pub fn found(&self) -> (b: bool)
        ensures
            b == self.resolves(),
    {
        self.as_given || self.in_working_dir
    }

    /// Whether the token resolves to a directory.
    pub fn found_directory(&self) -> (b: bool)
        ensures
            b == self.is_directory(),
    {
        self.found() && self.directory
    }
}

/// The set of executables that can be started by name. The host builds it
/// from the search path and hands it to the classifier.
#[derive(Clone, Debug)]
pub struct ExecutableIndex {
    names: Vec<String>,
}

impl View for ExecutableIndex {
    type V = Set<Seq<char>>;

    closed spec fn view(&self) -> Set<Seq<char>> {
        Set::new(|name: Seq<char>| exists|i: int| 0 <= i < self.names.len() && self.names[i]@ == name)
    }
}

impl ExecutableIndex {
    /// The index that knows no executable.
    pub fn new() -> (index: ExecutableIndex)
        ensures
            index@ == Set::<Seq<char>>::empty(),
    {
        let index = ExecutableIndex { names: Vec::new() };
        assert(index@ =~= Set::<Seq<char>>::empty());
        index
    }

    /// Whether `name` is in the index.
    pub fn contains(&self, name: &str) -> (b: bool)
        ensures
            b == self@.contains(name@),
    {
        let key = String::from_str(name);
        let mut i: usize = 0;
        while i < self.names.len()
            invariant
                i <= self.names.len(),
                key@ == name@,
                forall|j: int| 0 <= j < i ==> self.names[j]@ != name@,
            decreases self.names.len() - i,
        {
            if self.names[i] == key {
                return true;
            }
            i += 1;
        }
        false
    }

    /// Adds `name` to the index. Returns whether it was new.
    pub fn insert(&mut self, name: String) -> (added: bool)
        ensures
            final(self)@ == old(self)@.insert(name@),
            added == !old(self)@.contains(name@),
    {
        if self.contains(name.as_str()) {
            assert(self@ =~= self@.insert(name@));
            false
        } else {
            let ghost before = self.names@;
            self.names.push(name);
            assert forall|n: Seq<char>| self@.contains(n) <==> old(self)@.insert(name@).contains(
                n,
            ) by {
                if old(self)@.contains(n) {
                    let i = choose|i: int| 0 <= i < before.len() && before[i]@ == n;
                    assert(self.names[i]@ == n);
                }
                if n == name@ {
                    assert(self.names[before.len() as int]@ == n);
                }
            }
            assert(self@ =~= old(self)@.insert(name@));
            true
        }
    }
}

/// The kind of a token, given what the host saw on disk and the set of
/// known executables. The first rule that applies wins: an existing path,
/// then the reserved names of the internal actions, then the executables.
pub open spec fn classify_spec(token: Seq<char>, probe: PathProbe, index: Set<Seq<char>>) -> KindView {
    if probe.resolves() {
        KindView::Path(token)
    } else if token == "view"@ {
        KindView::View
    } else if token == "write"@ {
        KindView::Write
    } else if token == "shortcuts"@ {
        KindView::Shortcuts
    } else if index.contains(token) {
        KindView::External(token)
    } else {
        KindView::NotFound
    }
}

/// Whether `token` is the reserved name of an internal action.
pub open spec fn is_reserved(token: Seq<char>) -> bool {
    token == "view"@ || token == "write"@ || token == "shortcuts"@
}

/// Whether two texts are the same.
fn same_text(a: &str, b: &str) -> (same: bool)
    ensures
        same == (a@ == b@),
{
    String::from_str(a) == String::from_str(b)
}

/// Classifies a command token. Total: every token has exactly one kind.
pub fn classify(token: &str, probe: &PathProbe, index: &ExecutableIndex) -> (kind: Kind)
    ensures
        kind@ == classify_spec(token@, *probe, index@),
{
    if probe.found() {
        Kind::Path(String::from_str(token))
    } else if same_text(token, "view") {
        Kind::View
    } else if same_text(token, "write") {
        Kind::Write
    } else if same_text(token, "shortcuts") {
        Kind::Shortcuts
    } else if index.contains(token) {
        Kind::External(String::from_str(token))
    } else {
        Kind::NotFound
    }
}

/// A token that names an existing filesystem entry, as it stands or under
/// the working directory, is a path, whatever the executable index holds.
pub proof fn law_existing_path_wins(token: Seq<char>, probe: PathProbe, index: Set<Seq<char>>)
    requires
        probe.resolves(),
    ensures
        classify_spec(token, probe, index) == KindView::Path(token),
{
}

/// A reserved name that does not resolve to a path is the internal action
/// of that name, whatever the executable index holds.
pub proof fn law_reserved_names_are_internal(probe: PathProbe, index: Set<Seq<char>>)
    requires
        !probe.resolves(),
    ensures
        classify_spec("view"@, probe, index) == KindView::View,
        classify_spec("write"@, probe, index) == KindView::Write,
        classify_spec("shortcuts"@, probe, index) == KindView::Shortcuts,
{
    reveal_strlit("view");
    reveal_strlit("write");
    reveal_strlit("shortcuts");
    assert("write"@[0] != "view"@[0]);
    assert("shortcuts"@[0] != "view"@[0]);
    assert("shortcuts"@[0] != "write"@[0]);
}

/// A token in the executable index that is neither a path nor a reserved
/// name is an external command.
pub proof fn law_indexed_is_external(token: Seq<char>, probe: PathProbe, index: Set<Seq<char>>)
    requires
        !probe.resolves(),
        !is_reserved(token),
        index.contains(token),
    ensures
        classify_spec(token, probe, index) == KindView::External(token),
{
}

/// Every other token is not found.
pub proof fn law_otherwise_not_found(token: Seq<char>, probe: PathProbe, index: Set<Seq<char>>)
    requires
        !probe.resolves(),
        !is_reserved(token),
        !index.contains(token),
    ensures
        classify_spec(token, probe, index) == KindView::NotFound,
{
}

} // verus!
