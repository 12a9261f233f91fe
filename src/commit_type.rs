use vstd::prelude::*;

verus! {

/// The kind of change a commit makes: a closed set of conventional kinds,
/// plus kinds declared by the user with their own changelog title.
#[derive(Debug, PartialEq, Eq)]
pub enum CommitType {
    Feature,
    BugFix,
    Chore,
    Revert,
    Performance,
    Documentation,
    Style,
    Refactoring,
    Test,
    Build,
    Ci,
    /// A user-declared kind: its key and its changelog title.
    Custom(String, String),
}

/// The closed kind that a key names, if any.
pub open spec fn closed_type(k: Seq<char>) -> Option<CommitType> {
    if k == "feat"@ {
        Some(CommitType::Feature)
    } else if k == "fix"@ {
        Some(CommitType::BugFix)
    } else if k == "chore"@ {
        Some(CommitType::Chore)
    } else if k == "revert"@ {
        Some(CommitType::Revert)
    } else if k == "perf"@ {
        Some(CommitType::Performance)
    } else if k == "docs"@ {
        Some(CommitType::Documentation)
    } else if k == "style"@ {
        Some(CommitType::Style)
    } else if k == "refactor"@ {
        Some(CommitType::Refactoring)
    } else if k == "test"@ {
        Some(CommitType::Test)
    } else if k == "build"@ {
        Some(CommitType::Build)
    } else if k == "ci"@ {
        Some(CommitType::Ci)
    } else {
        None
    }
}

/// The first entry of the custom table, at or after `i`, whose key is `k`.
pub open spec fn custom_index(custom: Seq<(String, String)>, k: Seq<char>, i: int) -> Option<int>
    decreases custom.len() - i,
{
    if i < 0 || i >= custom.len() {
        None
    } else if custom[i].0@ == k {
        Some(i)
    } else {
        custom_index(custom, k, i + 1)
    }
}

/// What a key classifies as: a closed kind first, then the custom table.
pub open spec fn classify_spec(k: Seq<char>, custom: Seq<(String, String)>) -> Option<CommitType> {
    if closed_type(k) is Some {
        closed_type(k)
    } else {
        match custom_index(custom, k, 0) {
            Some(i) => Some(CommitType::Custom(custom[i].0, custom[i].1)),
            None => None,
        }
    }
}

/// The changelog heading of each kind.
pub open spec fn title_spec(t: CommitType) -> Seq<char> {
    match t {
        CommitType::Feature => "Feature"@,
        CommitType::BugFix => "Bug Fixes"@,
        CommitType::Chore => "Miscellaneous Chores"@,
        CommitType::Revert => "Revert"@,
        CommitType::Performance => "Performance Improvements"@,
        CommitType::Documentation => "Documentation"@,
        CommitType::Style => "Style"@,
        CommitType::Refactoring => "Refactoring"@,
        CommitType::Test => "Tests"@,
        CommitType::Build => "Build System"@,
        CommitType::Ci => "Continuous Integration"@,
        CommitType::Custom(_, title) => title@,
    }
}

/// The short key of each kind.
pub open spec fn key_spec(t: CommitType) -> Seq<char> {
    match t {
        CommitType::Feature => "feat"@,
        CommitType::BugFix => "fix"@,
        CommitType::Chore => "chore"@,
        CommitType::Revert => "revert"@,
        CommitType::Performance => "perf"@,
        CommitType::Documentation => "docs"@,
        CommitType::Style => "style"@,
        CommitType::Refactoring => "refactor"@,
        CommitType::Test => "test"@,
        CommitType::Build => "build"@,
        CommitType::Ci => "ci"@,
        CommitType::Custom(key, _) => key@,
    }
}

/// Whether two kinds are the same kind: the same closed kind, or custom
/// kinds with the same key and title.
pub open spec fn same_type(a: CommitType, b: CommitType) -> bool {
    match (a, b) {
        (CommitType::Custom(ka, ta), CommitType::Custom(kb, tb)) => ka@ == kb@ && ta@ == tb@,
        (CommitType::Custom(_, _), _) => false,
        (_, CommitType::Custom(_, _)) => false,
        _ => a == b,
    }
}

impl CommitType {
    /// The changelog section heading of this kind.
    pub fn get_markdown_title(&self) -> (r: &str)
        ensures
            r@ == title_spec(*self),
    {
        match self {
            CommitType::Feature => "Feature",
            CommitType::BugFix => "Bug Fixes",
            CommitType::Chore => "Miscellaneous Chores",
            CommitType::Revert => "Revert",
            CommitType::Performance => "Performance Improvements",
            CommitType::Documentation => "Documentation",
            CommitType::Style => "Style",
            CommitType::Refactoring => "Refactoring",
            CommitType::Test => "Tests",
            CommitType::Build => "Build System",
            CommitType::Ci => "Continuous Integration",
            CommitType::Custom(_, title) => title.as_str(),
        }
    }

    /// The short key of this kind, as written in a commit header.
    pub fn get_key_str(&self) -> (r: &str)
        ensures
            r@ == key_spec(*self),
    {
        match self {
            CommitType::Feature => "feat",
            CommitType::BugFix => "fix",
            CommitType::Chore => "chore",
            CommitType::Revert => "revert",
            CommitType::Performance => "perf",
            CommitType::Documentation => "docs",
            CommitType::Style => "style",
            CommitType::Refactoring => "refactor",
            CommitType::Test => "test",
            CommitType::Build => "build",
            CommitType::Ci => "ci",
            CommitType::Custom(key, _) => key.as_str(),
        }
    }

    /// An equal copy of this kind.
    pub fn duplicate(&self) -> (r: CommitType)
        ensures
            r == *self,
    {
        match self {
            CommitType::Feature => CommitType::Feature,
            CommitType::BugFix => CommitType::BugFix,
            CommitType::Chore => CommitType::Chore,
            CommitType::Revert => CommitType::Revert,
            CommitType::Performance => CommitType::Performance,
            CommitType::Documentation => CommitType::Documentation,
            CommitType::Style => CommitType::Style,
            CommitType::Refactoring => CommitType::Refactoring,
            CommitType::Test => CommitType::Test,
            CommitType::Build => CommitType::Build,
            CommitType::Ci => CommitType::Ci,
            CommitType::Custom(key, title) => CommitType::Custom(key.clone(), title.clone()),
        }
    }

    /// Whether `self` and `other` are the same kind.
    pub fn same_as(&self, other: &CommitType) -> (r: bool)
        ensures
            r == same_type(*self, *other),
    {
        match (self, other) {
            (CommitType::Custom(ka, ta), CommitType::Custom(kb, tb)) => *ka == *kb && *ta == *tb,
            (CommitType::Custom(_, _), _) => false,
            (_, CommitType::Custom(_, _)) => false,
            _ => self.closed_rank() == other.closed_rank(),
        }
    }

    /// The place of a closed kind in the changelog's section order; 11 for a custom kind.
    pub fn closed_rank(&self) -> (r: u8)
        ensures
            r == rank_spec(*self),
    {
        match self {
            CommitType::Feature => 0,
            CommitType::BugFix => 1,
            CommitType::Performance => 2,
            CommitType::Revert => 3,
            CommitType::Documentation => 4,
            CommitType::Style => 5,
            CommitType::Refactoring => 6,
            CommitType::Test => 7,
            CommitType::Build => 8,
            CommitType::Ci => 9,
            CommitType::Chore => 10,
            CommitType::Custom(_, _) => 11,
        }
    }
}

/// The changelog's section order: Feature, BugFix, Performance, Revert,
/// Documentation, Style, Refactoring, Test, Build, Ci, Chore, then custom kinds.
pub open spec fn rank_spec(t: CommitType) -> u8 {
    match t {
        CommitType::Feature => 0,
        CommitType::BugFix => 1,
        CommitType::Performance => 2,
        CommitType::Revert => 3,
        CommitType::Documentation => 4,
        CommitType::Style => 5,
        CommitType::Refactoring => 6,
        CommitType::Test => 7,
        CommitType::Build => 8,
        CommitType::Ci => 9,
        CommitType::Chore => 10,
        CommitType::Custom(_, _) => 11,
    }
}

/// Classifies a key: the closed kinds first (exact, case-sensitive), then the
/// custom table (key, title), whose first entry with that key wins.
pub fn classify(key: &str, custom: &Vec<(String, String)>) -> (r: Option<CommitType>)
    ensures
        r == classify_spec(key@, custom@),
{
    let k = String::from_str(key);
    if k == String::from_str("feat") {
        Some(CommitType::Feature)
    } else if k == String::from_str("fix") {
        Some(CommitType::BugFix)
    } else if k == String::from_str("chore") {
        Some(CommitType::Chore)
    } else if k == String::from_str("revert") {
        Some(CommitType::Revert)
    } else if k == String::from_str("perf") {
        Some(CommitType::Performance)
    } else if k == String::from_str("docs") {
        Some(CommitType::Documentation)
    } else if k == String::from_str("style") {
        Some(CommitType::Style)
    } else if k == String::from_str("refactor") {
        Some(CommitType::Refactoring)
    } else if k == String::from_str("test") {
        Some(CommitType::Test)
    } else if k == String::from_str("build") {
        Some(CommitType::Build)
    } else if k == String::from_str("ci") {
        Some(CommitType::Ci)
    } else {
        let mut i: usize = 0;
        while i < custom.len()
            invariant
                i <= custom.len(),
                k@ == key@,
                closed_type(key@) is None,
                custom_index(custom@, key@, 0) == custom_index(custom@, key@, i as int),
            decreases custom.len() - i,
        {
            let entry = &custom[i];
            if entry.0 == k {
                return Some(CommitType::Custom(custom[i].0.clone(), custom[i].1.clone()));
            }
            i = i + 1;
        }
        None
    }
}

/// Each closed key classifies as its kind, whose heading is the documented one,
/// and whose key is the key again.
pub proof fn lemma_closed_keys_round_trip(custom: Seq<(String, String)>)
    ensures
        classify_spec("feat"@, custom) == Some(CommitType::Feature),
        classify_spec("fix"@, custom) == Some(CommitType::BugFix),
        classify_spec("chore"@, custom) == Some(CommitType::Chore),
        classify_spec("revert"@, custom) == Some(CommitType::Revert),
        classify_spec("perf"@, custom) == Some(CommitType::Performance),
        classify_spec("docs"@, custom) == Some(CommitType::Documentation),
        classify_spec("style"@, custom) == Some(CommitType::Style),
        classify_spec("refactor"@, custom) == Some(CommitType::Refactoring),
        classify_spec("test"@, custom) == Some(CommitType::Test),
        classify_spec("build"@, custom) == Some(CommitType::Build),
        classify_spec("ci"@, custom) == Some(CommitType::Ci),
        title_spec(CommitType::Feature) == "Feature"@,
        title_spec(CommitType::BugFix) == "Bug Fixes"@,
        title_spec(CommitType::Chore) == "Miscellaneous Chores"@,
        title_spec(CommitType::Revert) == "Revert"@,
        title_spec(CommitType::Performance) == "Performance Improvements"@,
        title_spec(CommitType::Documentation) == "Documentation"@,
        title_spec(CommitType::Style) == "Style"@,
        title_spec(CommitType::Refactoring) == "Refactoring"@,
        title_spec(CommitType::Test) == "Tests"@,
        title_spec(CommitType::Build) == "Build System"@,
        title_spec(CommitType::Ci) == "Continuous Integration"@,
        forall|t: CommitType|
            !(t is Custom) ==> #[trigger] classify_spec(key_spec(t), custom) == Some(t),
{
    reveal_strlit("feat");
    assert("feat"@.len() == 4 && "feat"@[0] == 'f');
    reveal_strlit("fix");
    assert("fix"@.len() == 3 && "fix"@[0] == 'f');
    reveal_strlit("chore");
    assert("chore"@.len() == 5 && "chore"@[0] == 'c');
    reveal_strlit("revert");
    assert("revert"@.len() == 6 && "revert"@[0] == 'r');
    reveal_strlit("perf");
    assert("perf"@.len() == 4 && "perf"@[0] == 'p');
    reveal_strlit("docs");
    assert("docs"@.len() == 4 && "docs"@[0] == 'd');
    reveal_strlit("style");
    assert("style"@.len() == 5 && "style"@[0] == 's');
    reveal_strlit("refactor");
    assert("refactor"@.len() == 8 && "refactor"@[0] == 'r');
    reveal_strlit("test");
    assert("test"@.len() == 4 && "test"@[0] == 't');
    reveal_strlit("build");
    assert("build"@.len() == 5 && "build"@[0] == 'b');
    reveal_strlit("ci");
    assert("ci"@.len() == 2 && "ci"@[0] == 'c');
}

} // verus!
