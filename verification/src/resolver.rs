//! Dependency stack resolution: given a root package request and the
//! configured repository indices, computes the ordered, de-duplicated
//! set of packages (root plus transitive mandatory dependencies) to
//! install, each bound to the repository that supplies it.

use vstd::prelude::*;

use crate::pkg::{parse_query, PkgToQuery, PkgToQueryV, VersionComparison, VersionStruct,
    VersionStructV};

verus! {

/// A resolved package reference: produced only by the resolver,
/// immutable once produced.
#[derive(Clone, Debug)]
pub struct PkgIndex {
    pub name: String,
    pub version: VersionStruct,
    pub repository_address: String,
}

/// Mathematical model of a resolved package reference.
pub struct PkgIndexV {
    pub name: Seq<char>,
    pub version: VersionStructV,
    pub repository_address: Seq<char>,
}

impl View for PkgIndex {
    type V = PkgIndexV;

    open spec fn view(&self) -> PkgIndexV {
        PkgIndexV {
            name: self.name@,
            version: self.version@,
            repository_address: self.repository_address@,
        }
    }
}

/// One package recorded in a repository index: its concrete version and
/// its mandatory dependencies as specifier strings.
#[derive(Clone, Debug)]
pub struct IndexEntry {
    pub name: String,
    pub version: VersionStruct,
    pub dependencies: Vec<String>,
}

/// Mathematical model of an index entry.
pub struct IndexEntryV {
    pub name: Seq<char>,
    pub version: VersionStructV,
    pub dependencies: Seq<Seq<char>>,
}

impl View for IndexEntry {
    type V = IndexEntryV;

    open spec fn view(&self) -> IndexEntryV {
        IndexEntryV {
            name: self.name@,
            version: self.version@,
            dependencies: self.dependencies@.map_values(|d: String| d@),
        }
    }
}

/// A named, addressed repository index. An uninitialized index (one
/// whose backing file is empty) contributes no dependency information
/// and is skipped, never an error.
#[derive(Clone, Debug)]
pub struct RepositoryIndex {
    pub name: String,
    pub address: String,
    pub initialized: bool,
    pub entries: Vec<IndexEntry>,
}

/// Mathematical model of a repository index.
pub struct RepositoryIndexV {
    pub name: Seq<char>,
    pub address: Seq<char>,
    pub initialized: bool,
    pub entries: Seq<IndexEntryV>,
}

impl View for RepositoryIndex {
    type V = RepositoryIndexV;

    open spec fn view(&self) -> RepositoryIndexV {
        RepositoryIndexV {
            name: self.name@,
            address: self.address@,
            initialized: self.initialized,
            entries: self.entries@.map_values(|e: IndexEntry| e@),
        }
    }
}

/// Why resolution failed.
#[derive(Clone, Debug)]
pub enum ResolveError {
    /// The root package is absent from every configured repository (or
    /// none is configured).
    PackageNotFound(String),
    /// A dependency specifier recorded in an index does not parse.
    InvalidPackageName(String),
}

/// Mathematical model of a resolution failure.
pub enum ResolveErrorV {
    PackageNotFound(Seq<char>),
    InvalidPackageName(Seq<char>),
}

impl View for ResolveError {
    type V = ResolveErrorV;

    open spec fn view(&self) -> ResolveErrorV {
        match self {
            ResolveError::PackageNotFound(n) => ResolveErrorV::PackageNotFound(n@),
            ResolveError::InvalidPackageName(n) => ResolveErrorV::InvalidPackageName(n@),
        }
    }
}

/// `a` is strictly below `b` in version order.
pub open spec fn version_lt(a: VersionStructV, b: VersionStructV) -> bool {
    ||| a.major < b.major
    ||| (a.major == b.major && a.minor < b.minor)
    ||| (a.major == b.major && a.minor == b.minor && a.patch < b.patch)
}

/// `a` and `b` denote the same version.
pub open spec fn version_eq(a: VersionStructV, b: VersionStructV) -> bool {
    a.major == b.major && a.minor == b.minor && a.patch == b.patch
}

/// A concrete version satisfies a constraint under its comparison.
pub open spec fn satisfies(candidate: VersionStructV, constraint: VersionStructV) -> bool {
    match constraint.condition {
        VersionComparison::Equal => version_eq(candidate, constraint),
        VersionComparison::GreaterThanOrEqual => !version_lt(candidate, constraint),
        VersionComparison::LessThanOrEqual => version_lt(candidate, constraint) || version_eq(
            candidate,
            constraint,
        ),
        VersionComparison::GreaterThan => !version_lt(candidate, constraint) && !version_eq(
            candidate,
            constraint,
        ),
        VersionComparison::LessThan => version_lt(candidate, constraint),
    }
}

/// A candidate version answers a query: any version when the query
/// names none, else one satisfying the constraint.
pub open spec fn query_accepts(q: PkgToQueryV, candidate: VersionStructV) -> bool {
    match q.version {
        Option::None => true,
        Option::Some(c) => satisfies(candidate, c),
    }
}

/// The version a parsed specifier binds a dependency to: the constraint
/// itself, or an exact-zero placeholder when it gave none.
pub open spec fn query_version(q: PkgToQueryV) -> VersionStructV {
    match q.version {
        Option::Some(v) => v,
        Option::None => VersionStructV {
            major: 0,
            minor: 0,
            patch: 0,
            condition: VersionComparison::Equal,
        },
    }
}

/// First entry answering the query, scanning from `k`.
pub open spec fn find_entry(entries: Seq<IndexEntryV>, q: PkgToQueryV, k: int) -> Option<
    IndexEntryV,
>
    decreases entries.len() - k,
{
    if k < 0 || k >= entries.len() {
        Option::None
    } else if entries[k].name == q.name && query_accepts(q, entries[k].version) {
        Option::Some(entries[k])
    } else {
        find_entry(entries, q, k + 1)
    }
}

/// First initialized repository whose index answers the query, scanning
/// from `k`; the winning entry is bound to that repository's address.
pub open spec fn find_root(repos: Seq<RepositoryIndexV>, q: PkgToQueryV, k: int) -> Option<
    PkgIndexV,
>
    decreases repos.len() - k,
{
    if k < 0 || k >= repos.len() {
        Option::None
    } else if repos[k].initialized && find_entry(repos[k].entries, q, 0) is Some {
        let e = find_entry(repos[k].entries, q, 0)->Some_0;
        Option::Some(
            PkgIndexV { name: e.name, version: e.version, repository_address: repos[k].address },
        )
    } else {
        find_root(repos, q, k + 1)
    }
}

/// Dependencies declared by the first entry named `name`, or none.
pub open spec fn entry_deps(entries: Seq<IndexEntryV>, name: Seq<char>, k: int) -> Seq<Seq<char>>
    decreases entries.len() - k,
{
    if k < 0 || k >= entries.len() {
        Seq::empty()
    } else if entries[k].name == name {
        entries[k].dependencies
    } else {
        entry_deps(entries, name, k + 1)
    }
}

/// Some stacked package already has this name.
pub open spec fn stack_has_name(stack: Seq<PkgIndexV>, name: Seq<char>) -> bool {
    exists|k: int| 0 <= k < stack.len() && stack[k].name == name
}

/// Appends the newly discovered dependencies to the stack, keeping the
/// first occurrence of each package name; a specifier that does not
/// parse is a fatal error carrying the offending text.
pub open spec fn append_deps(
    stack: Seq<PkgIndexV>,
    deps: Seq<Seq<char>>,
    addr: Seq<char>,
) -> Result<Seq<PkgIndexV>, Seq<char>>
    decreases deps.len(),
{
    if deps.len() == 0 {
        Result::Ok(stack)
    } else {
        match parse_query(deps[0]) {
            Option::None => Result::Err(deps[0]),
            Option::Some(dq) => {
                let grown = if stack_has_name(stack, dq.name) {
                    stack
                } else {
                    stack.push(
                        PkgIndexV {
                            name: dq.name,
                            version: query_version(dq),
                            repository_address: addr,
                        },
                    )
                };
                append_deps(grown, deps.drop_first(), addr)
            },
        }
    }
}

/// Expands the stacked packages with indices `i..n` against one
/// repository index.
pub open spec fn pass_items(
    repo: RepositoryIndexV,
    stack: Seq<PkgIndexV>,
    i: int,
    n: int,
) -> Result<Seq<PkgIndexV>, Seq<char>>
    decreases n - i,
{
    if i < 0 || i >= n || n > stack.len() {
        Result::Ok(stack)
    } else {
        match append_deps(stack, entry_deps(repo.entries, stack[i].name, 0), repo.address) {
            Result::Err(d) => Result::Err(d),
            Result::Ok(grown) => pass_items(repo, grown, i + 1, n),
        }
    }
}

/// Runs `passes` full sweeps of the stack against one repository, so
/// dependencies of dependencies are picked up by later sweeps.
pub open spec fn repo_passes(
    repo: RepositoryIndexV,
    stack: Seq<PkgIndexV>,
    passes: nat,
) -> Result<Seq<PkgIndexV>, Seq<char>>
    decreases passes,
{
    if passes == 0 {
        Result::Ok(stack)
    } else {
        match pass_items(repo, stack, 0, stack.len() as int) {
            Result::Err(d) => Result::Err(d),
            Result::Ok(grown) => repo_passes(repo, grown, (passes - 1) as nat),
        }
    }
}

/// Expands the stack against every configured, initialized repository
/// index in order, starting at `k`. One sweep per entry of an index
/// reaches that index's fixpoint, since every sweep that grows the
/// stack consumes a fresh entry name.
pub open spec fn process_repos(
    repos: Seq<RepositoryIndexV>,
    stack: Seq<PkgIndexV>,
    k: int,
) -> Result<Seq<PkgIndexV>, Seq<char>>
    decreases repos.len() - k,
{
    if k < 0 || k >= repos.len() {
        Result::Ok(stack)
    } else if !repos[k].initialized {
        process_repos(repos, stack, k + 1)
    } else {
        match repo_passes(repos[k], stack, repos[k].entries.len()) {
            Result::Err(d) => Result::Err(d),
            Result::Ok(grown) => process_repos(repos, grown, k + 1),
        }
    }
}

/// The resolved dependency stack for a root query: the root first, then
/// its transitive mandatory dependencies in discovery order, one entry
/// per package name (first discovered wins).
pub open spec fn resolve_spec(q: PkgToQueryV, repos: Seq<RepositoryIndexV>) -> Result<
    Seq<PkgIndexV>,
    ResolveErrorV,
> {
    if repos.len() == 0 {
        Result::Err(ResolveErrorV::PackageNotFound(q.name))
    } else {
        match find_root(repos, q, 0) {
            Option::None => Result::Err(ResolveErrorV::PackageNotFound(q.name)),
            Option::Some(root) => match process_repos(repos, seq![root], 0) {
                Result::Err(d) => Result::Err(ResolveErrorV::InvalidPackageName(d)),
                Result::Ok(stack) => Result::Ok(stack),
            },
        }
    }
}

/// Whether a concrete version satisfies a version constraint.
pub fn version_satisfies(candidate: &VersionStruct, constraint: &VersionStruct) -> (r: bool)
    ensures
        r == satisfies(candidate@, constraint@),
{
    match constraint.condition {
        VersionComparison::Equal => version_eq_exec(candidate, constraint),
        VersionComparison::GreaterThanOrEqual => !version_lt_exec(candidate, constraint),
        VersionComparison::LessThanOrEqual => version_lt_exec(candidate, constraint)
            || version_eq_exec(candidate, constraint),
        VersionComparison::GreaterThan => !version_lt_exec(candidate, constraint)
            && !version_eq_exec(candidate, constraint),
        VersionComparison::LessThan => version_lt_exec(candidate, constraint),
    }
}

fn version_lt_exec(a: &VersionStruct, b: &VersionStruct) -> (r: bool)
    ensures
        r == version_lt(a@, b@),
{
    a.major < b.major || (a.major == b.major && a.minor < b.minor) || (a.major == b.major
        && a.minor == b.minor && a.patch < b.patch)
}

fn version_eq_exec(a: &VersionStruct, b: &VersionStruct) -> (r: bool)
    ensures
        r == version_eq(a@, b@),
{
    a.major == b.major && a.minor == b.minor && a.patch == b.patch
}

/// Whether a query accepts a candidate version.
pub fn query_accepts_exec(q: &PkgToQuery, candidate: &VersionStruct) -> (r: bool)
    ensures
        r == query_accepts(q@, candidate@),
{
    match &q.version {
        Option::None => true,
        Option::Some(c) => version_satisfies(candidate, c),
    }
}

/// Locates the root package: the first initialized repository whose
/// index satisfies the query wins.
pub fn find_pkg_index(repos: &Vec<RepositoryIndex>, q: &PkgToQuery) -> (r: Option<PkgIndex>)
    ensures
        match r {
            Option::Some(p) => find_root(repos@.map_values(|x: RepositoryIndex| x@), q@, 0)
                == Option::Some(p@),
            Option::None => find_root(repos@.map_values(|x: RepositoryIndex| x@), q@, 0) is None,
        },
{
    let ghost reposv = repos@.map_values(|x: RepositoryIndex| x@);
    let mut k: usize = 0;
    while k < repos.len()
        invariant
            0 <= k <= repos.len(),
            reposv == repos@.map_values(|x: RepositoryIndex| x@),
            find_root(reposv, q@, 0) == find_root(reposv, q@, k as int),
        decreases repos.len() - k,
    {
        proof {
            assert(reposv[k as int] == repos@[k as int]@);
        }
        if repos[k].initialized {
            let found = find_entry_exec(&repos[k].entries, q);
            match found {
                Option::Some((name, version)) => {
                    let p = PkgIndex {
                        name,
                        version,
                        repository_address: repos[k].address.clone(),
                    };
                    proof {
                        assert(find_root(reposv, q@, k as int) == Option::Some(p@));
                    }
                    return Option::Some(p);
                },
                Option::None => {},
            }
        }
        k = k + 1;
    }
    Option::None
}

/// Name and concrete version of the first entry of one index answering
/// the query.
fn find_entry_exec(entries: &Vec<IndexEntry>, q: &PkgToQuery) -> (r: Option<(String, VersionStruct)>)
    ensures
        ({
            let found = find_entry(entries@.map_values(|x: IndexEntry| x@), q@, 0);
            match r {
                Option::Some((name, version)) => found is Some && found->Some_0.name == name@
                    && found->Some_0.version == version@,
                Option::None => found is None,
            }
        }),
{
    let ghost ev = entries@.map_values(|x: IndexEntry| x@);
    let mut k: usize = 0;
    while k < entries.len()
        invariant
            0 <= k <= entries.len(),
            ev == entries@.map_values(|x: IndexEntry| x@),
            find_entry(ev, q@, 0) == find_entry(ev, q@, k as int),
        decreases entries.len() - k,
    {
        proof {
            assert(ev[k as int] == entries@[k as int]@);
        }
        let name_matches = string_eq(&entries[k].name, &q.name);
        if name_matches && query_accepts_exec(q, &entries[k].version) {
            return Option::Some((entries[k].name.clone(), entries[k].version));
        }
        k = k + 1;
    }
    Option::None
}


/// Index of the first entry named `name`, whose dependency list is what
/// `entry_deps` denotes.
fn entry_deps_exec(entries: &Vec<IndexEntry>, name: &String) -> (r: Option<usize>)
    ensures
        ({
            let ev = entries@.map_values(|x: IndexEntry| x@);
            match r {
                Option::Some(ei) => ei < entries@.len() && ev[ei as int].name == name@
                    && entry_deps(ev, name@, 0) == ev[ei as int].dependencies,
                Option::None => entry_deps(ev, name@, 0) == Seq::<Seq<char>>::empty(),
            }
        }),
{
    let ghost ev = entries@.map_values(|x: IndexEntry| x@);
    let mut k: usize = 0;
    while k < entries.len()
        invariant
            0 <= k <= entries.len(),
            ev == entries@.map_values(|x: IndexEntry| x@),
            entry_deps(ev, name@, 0) == entry_deps(ev, name@, k as int),
        decreases entries.len() - k,
    {
        proof {
            assert(ev[k as int] == entries@[k as int]@);
        }
        if string_eq(&entries[k].name, name) {
            return Option::Some(k);
        }
        k = k + 1;
    }
    Option::None
}

/// Whether some stacked package already has this name.
fn stack_contains_name(stack: &Vec<PkgIndex>, name: &String) -> (r: bool)
    ensures
        r == stack_has_name(stack@.map_values(|p: PkgIndex| p@), name@),
{
    let ghost sv = stack@.map_values(|p: PkgIndex| p@);
    let mut j: usize = 0;
    while j < stack.len()
        invariant
            0 <= j <= stack.len(),
            sv == stack@.map_values(|p: PkgIndex| p@),
            forall|m: int| 0 <= m < j ==> sv[m].name != name@,
        decreases stack.len() - j,
    {
        proof {
            assert(sv[j as int] == stack@[j as int]@);
        }
        if string_eq(&stack[j].name, name) {
            proof {
                assert(sv[j as int].name == name@);
            }
            return true;
        }
        j = j + 1;
    }
    false
}

/// Errors mapped: a dependency specifier that does not parse names the
/// offending text.
pub open spec fn wrap_deps(r: Result<Seq<PkgIndexV>, Seq<char>>) -> Result<
    Seq<PkgIndexV>,
    ResolveErrorV,
> {
    match r {
        Result::Ok(st) => Result::Ok(st),
        Result::Err(d) => Result::Err(ResolveErrorV::InvalidPackageName(d)),
    }
}

/// What resolution still owes after the sweeps left on repository `k`.
pub open spec fn after_passes(
    repos: Seq<RepositoryIndexV>,
    k: int,
    stack: Seq<PkgIndexV>,
    passes: nat,
) -> Result<Seq<PkgIndexV>, Seq<char>> {
    match repo_passes(repos[k], stack, passes) {
        Result::Err(d) => Result::Err(d),
        Result::Ok(grown) => process_repos(repos, grown, k + 1),
    }
}

/// What resolution still owes after expanding items `i..n` of the
/// current sweep, then the sweeps left, then the later repositories.
pub open spec fn after_items(
    repos: Seq<RepositoryIndexV>,
    k: int,
    stack: Seq<PkgIndexV>,
    i: int,
    n: int,
    passes: nat,
) -> Result<Seq<PkgIndexV>, Seq<char>> {
    match pass_items(repos[k], stack, i, n) {
        Result::Err(d) => Result::Err(d),
        Result::Ok(grown) => after_passes(repos, k, grown, passes),
    }
}

/// What resolution still owes after appending the dependencies left of
/// the item in hand, then the rest of the sweep, and so on outward.
pub open spec fn after_deps(
    repos: Seq<RepositoryIndexV>,
    k: int,
    stack: Seq<PkgIndexV>,
    deps: Seq<Seq<char>>,
    i: int,
    n: int,
    passes: nat,
) -> Result<Seq<PkgIndexV>, Seq<char>> {
    match append_deps(stack, deps, repos[k].address) {
        Result::Err(d) => Result::Err(d),
        Result::Ok(grown) => after_items(repos, k, grown, i + 1, n, passes),
    }
}

/// Finds package dependencies and returns them with the package itself:
/// the resolved dependency stack, root first, one entry per package
/// name (the first discovery wins), each bound to the repository that
/// declared it. With no repository configured, or the root absent from
/// all of them, the package is not found; a dependency specifier that
/// does not parse is a fatal error naming it.
pub fn get_pkg_stack(pkg_to_query: &PkgToQuery, repos: &Vec<RepositoryIndex>) -> (r: Result<
    Vec<PkgIndex>,
    ResolveError,
>)
    ensures
        ({
            let reposv = repos@.map_values(|x: RepositoryIndex| x@);
            match r {
                Result::Ok(stack) => resolve_spec(pkg_to_query@, reposv) == Result::<
                    Seq<PkgIndexV>,
                    ResolveErrorV,
                >::Ok(stack@.map_values(|p: PkgIndex| p@)),
                Result::Err(e) => resolve_spec(pkg_to_query@, reposv) == Result::<
                    Seq<PkgIndexV>,
                    ResolveErrorV,
                >::Err(e@),
            }
        }),
        (repos@.len() == 0 || find_root(repos@.map_values(|x: RepositoryIndex| x@), pkg_to_query@, 0)
            is None) ==> (r matches Result::Err(ResolveError::PackageNotFound(n)) && n@
            == pkg_to_query@.name),
        (match r {
            Result::Err(ResolveError::PackageNotFound(_)) => repos@.len() == 0 || find_root(
                repos@.map_values(|x: RepositoryIndex| x@),
                pkg_to_query@,
                0,
            ) is None,
            _ => true,
        }),
{
    let ghost reposv = repos@.map_values(|x: RepositoryIndex| x@);
    if repos.len() == 0 {
        return Result::Err(ResolveError::PackageNotFound(pkg_to_query.name.clone()));
    }
    let root = match find_pkg_index(repos, pkg_to_query) {
        Option::None => {
            return Result::Err(ResolveError::PackageNotFound(pkg_to_query.name.clone()));
        },
        Option::Some(p) => p,
    };
    let ghost rootv = root@;
    let mut stack: Vec<PkgIndex> = Vec::new();
    stack.push(root);
    proof {
        assert(stack@.map_values(|p: PkgIndex| p@) =~= seq![rootv]);
    }
    let ghost target = resolve_spec(pkg_to_query@, reposv);
    let mut k: usize = 0;
    while k < repos.len()
        invariant
            0 <= k <= repos.len(),
            reposv == repos@.map_values(|x: RepositoryIndex| x@),
            target == resolve_spec(pkg_to_query@, reposv),
            target == wrap_deps(
                process_repos(reposv, stack@.map_values(|p: PkgIndex| p@), k as int),
            ),
        decreases repos.len() - k,
    {
        proof {
            assert(reposv[k as int] == repos@[k as int]@);
        }
        if repos[k].initialized {
            let entries_len = repos[k].entries.len();
            let mut pass: usize = 0;
            proof {
                assert(repos@[k as int].entries.len() == reposv[k as int].entries.len());
            }
            while pass < entries_len
                invariant
                    0 <= k < repos.len(),
                    0 <= pass <= entries_len,
                    entries_len == reposv[k as int].entries.len(),
                    reposv == repos@.map_values(|x: RepositoryIndex| x@),
                    reposv[k as int] == repos@[k as int]@,
                    reposv[k as int].initialized,
                    target == resolve_spec(pkg_to_query@, reposv),
                    target == wrap_deps(
                        after_passes(
                            reposv,
                            k as int,
                            stack@.map_values(|p: PkgIndex| p@),
                            (entries_len - pass) as nat,
                        ),
                    ),
                decreases entries_len - pass,
            {
                let ghost passes_left = (entries_len - pass) as nat;
                let n = stack.len();
                let mut i: usize = 0;
                proof {
                    let curv = stack@.map_values(|p: PkgIndex| p@);
                    assert(repo_passes(reposv[k as int], curv, passes_left) == match pass_items(
                        reposv[k as int],
                        curv,
                        0,
                        curv.len() as int,
                    ) {
                        Result::Err(d) => Result::<Seq<PkgIndexV>, Seq<char>>::Err(d),
                        Result::Ok(grown) => repo_passes(
                            reposv[k as int],
                            grown,
                            (passes_left - 1) as nat,
                        ),
                    });
                }
                while i < n
                    invariant
                        0 <= i <= n <= stack.len(),
                        n <= stack@.len(),
                        0 <= k < repos.len(),
                        entries_len == reposv[k as int].entries.len(),
                        reposv == repos@.map_values(|x: RepositoryIndex| x@),
                        reposv[k as int] == repos@[k as int]@,
                        target == resolve_spec(pkg_to_query@, reposv),
                        target == wrap_deps(
                            after_items(
                                reposv,
                                k as int,
                                stack@.map_values(|p: PkgIndex| p@),
                                i as int,
                                n as int,
                                (entries_len - pass - 1) as nat,
                            ),
                        ),
                    decreases n - i,
                {
                    let ghost curv = stack@.map_values(|p: PkgIndex| p@);
                    proof {
                        assert(curv[i as int] == stack@[i as int]@);
                    }
                    let item_name = stack[i].name.clone();
                    let deps_idx = entry_deps_exec(&repos[k].entries, &item_name);
                    match deps_idx {
                        Option::None => {
                            proof {
                                let deps = entry_deps(
                                    reposv[k as int].entries,
                                    curv[i as int].name,
                                    0,
                                );
                                assert(append_deps(curv, deps, reposv[k as int].address)
                                    == Result::<Seq<PkgIndexV>, Seq<char>>::Ok(curv));
                            }
                        },
                        Option::Some(ei) => {
                            let ghost depsv = reposv[k as int].entries[ei as int].dependencies;
                            proof {
                                assert(reposv[k as int].entries[ei as int] == repos@[k as int]@
                                    .entries[ei as int]);
                                assert(depsv == repos@[k as int].entries@[ei as int].dependencies@
                                    .map_values(|d: String| d@));
                                assert(depsv.skip(0) =~= depsv);
                            }
                            let deps_len = repos[k].entries[ei].dependencies.len();
                            let mut j: usize = 0;
                            while j < deps_len
                                invariant
                                    0 <= j <= deps_len,
                                    0 <= k < repos.len(),
                                    ei < repos@[k as int].entries.len(),
                                    0 <= i < n <= stack@.len(),
                                    entries_len == reposv[k as int].entries.len(),
                                    reposv == repos@.map_values(|x: RepositoryIndex| x@),
                                    reposv[k as int] == repos@[k as int]@,
                                    depsv == reposv[k as int].entries[ei as int].dependencies,
                                    depsv == repos@[k as int].entries@[ei as int].dependencies@
                                        .map_values(|d: String| d@),
                                    deps_len == depsv.len(),
                                    target == resolve_spec(pkg_to_query@, reposv),
                                    target == wrap_deps(
                                        after_deps(
                                            reposv,
                                            k as int,
                                            stack@.map_values(|p: PkgIndex| p@),
                                            depsv.skip(j as int),
                                            i as int,
                                            n as int,
                                            (entries_len - pass - 1) as nat,
                                        ),
                                    ),
                                decreases deps_len - j,
                            {
                                let ghost curv2 = stack@.map_values(|p: PkgIndex| p@);
                                proof {
                                    assert(depsv.skip(j as int)[0] == depsv[j as int]);
                                    assert(depsv[j as int] == repos@[k as int].entries@[ei as int]
                                        .dependencies@[j as int]@);
                                    assert(depsv.skip(j as int).drop_first() =~= depsv.skip(
                                        j as int + 1,
                                    ));
                                }
                                let dep_parsed = PkgToQuery::parse(
                                    repos[k].entries[ei].dependencies[j].as_str(),
                                );
                                match dep_parsed {
                                    Option::None => {
                                        return Result::Err(
                                            ResolveError::InvalidPackageName(
                                                repos[k].entries[ei].dependencies[j].clone(),
                                            ),
                                        );
                                    },
                                    Option::Some(dq) => {
                                        if !stack_contains_name(&stack, &dq.name) {
                                            let version = dq.version_struct();
                                            let item = PkgIndex {
                                                name: dq.name,
                                                version,
                                                repository_address: repos[k].address.clone(),
                                            };
                                            proof {
                                                assert(item@ == (PkgIndexV {
                                                    name: dq@.name,
                                                    version: query_version(dq@),
                                                    repository_address: reposv[k as int].address,
                                                }));
                                            }
                                            stack.push(item);
                                            proof {
                                                assert(stack@.map_values(|p: PkgIndex| p@)
                                                    =~= curv2.push(item@));
                                                assert(forall|m: int| 0 <= m < n ==>
                                                    stack@.map_values(|p: PkgIndex| p@)[m]
                                                    == curv2[m]);
                                            }
                                        }
                                    },
                                }
                                j = j + 1;
                            }
                            proof {
                                assert(depsv.skip(deps_len as int) =~= Seq::<Seq<char>>::empty());
                            }
                        },
                    }
                    i = i + 1;
                }
                pass = pass + 1;
            }
        }
        k = k + 1;
    }
    proof {
        assert(process_repos(reposv, stack@.map_values(|p: PkgIndex| p@), k as int) == Result::<
            Seq<PkgIndexV>,
            Seq<char>,
        >::Ok(stack@.map_values(|p: PkgIndex| p@)));
    }
    Result::Ok(stack)
}

/// The canonical archive filename of a resolved package.
pub open spec fn pkg_filename_chars(p: PkgIndexV) -> Seq<char> {
    p.name + "-"@ + crate::pkg::version_chars(p.version) + ".lod"@
}

impl PkgIndex {
    /// The canonical archive filename: `name-major.minor.patch.lod`.
    pub fn pkg_filename(&self) -> (r: String)
        ensures
            r@ == pkg_filename_chars(self@),
    {
        let mut r = self.name.clone();
        r.append("-");
        let ver = self.version.readable_format();
        r.append(ver.as_str());
        r.append(".lod");
        proof {
            assert(r@ =~= pkg_filename_chars(self@));
        }
        r
    }

    /// Where the downloaded archive is staged, under the given output
    /// root.
    pub fn pkg_output_path(&self, output_root: &str) -> (r: String)
        ensures
            r@ == output_root@ + "/"@ + pkg_filename_chars(self@),
    {
        let mut r = String::from_str(output_root);
        r.append("/");
        let name = self.pkg_filename();
        r.append(name.as_str());
        proof {
            assert(r@ =~= output_root@ + "/"@ + pkg_filename_chars(self@));
        }
        r
    }

    /// Where the archive is downloaded from: the supplying repository's
    /// address.
    pub fn pkg_url(&self) -> (r: String)
        ensures
            r@ == self@.repository_address + "/"@ + pkg_filename_chars(self@),
    {
        let mut r = self.repository_address.clone();
        r.append("/");
        let name = self.pkg_filename();
        r.append(name.as_str());
        proof {
            assert(r@ =~= self@.repository_address + "/"@ + pkg_filename_chars(self@));
        }
        r
    }
}

/// No two stacked packages share a name.
pub open spec fn names_unique(stack: Seq<PkgIndexV>) -> bool {
    forall|a: int, b: int| 0 <= a < b < stack.len() ==> stack[a].name != stack[b].name
}

/// Appending dependencies only grows the stack, keeps what was there,
/// and never introduces a second package of an existing name.
proof fn lemma_append_deps_extends(stack: Seq<PkgIndexV>, deps: Seq<Seq<char>>, addr: Seq<char>)
    requires
        append_deps(stack, deps, addr) is Ok,
        names_unique(stack),
    ensures
        ({
            let st = append_deps(stack, deps, addr)->Ok_0;
            &&& stack.len() <= st.len()
            &&& (forall|m: int| 0 <= m < stack.len() ==> st[m] == stack[m])
            &&& names_unique(st)
        }),
    decreases deps.len(),
{
    if deps.len() > 0 {
        let dq = parse_query(deps[0])->Some_0;
        if stack_has_name(stack, dq.name) {
            lemma_append_deps_extends(stack, deps.drop_first(), addr);
        } else {
            let grown = stack.push(
                PkgIndexV {
                    name: dq.name,
                    version: query_version(dq),
                    repository_address: addr,
                },
            );
            assert(names_unique(grown)) by {
                assert(forall|a: int| 0 <= a < stack.len() ==> grown[a] == stack[a]);
                assert(!(exists|k: int| 0 <= k < stack.len() && stack[k].name == dq.name));
            }
            lemma_append_deps_extends(grown, deps.drop_first(), addr);
        }
    }
}

/// One sweep of the stack preserves its prefix and name uniqueness.
proof fn lemma_pass_items_extends(repo: RepositoryIndexV, stack: Seq<PkgIndexV>, i: int, n: int)
    requires
        pass_items(repo, stack, i, n) is Ok,
        names_unique(stack),
    ensures
        ({
            let st = pass_items(repo, stack, i, n)->Ok_0;
            &&& stack.len() <= st.len()
            &&& (forall|m: int| 0 <= m < stack.len() ==> st[m] == stack[m])
            &&& names_unique(st)
        }),
    decreases n - i,
{
    if !(i < 0 || i >= n || n > stack.len()) {
        let deps = entry_deps(repo.entries, stack[i].name, 0);
        lemma_append_deps_extends(stack, deps, repo.address);
        let grown = append_deps(stack, deps, repo.address)->Ok_0;
        lemma_pass_items_extends(repo, grown, i + 1, n);
    }
}

/// All sweeps against one repository preserve the prefix and name
/// uniqueness.
proof fn lemma_repo_passes_extends(repo: RepositoryIndexV, stack: Seq<PkgIndexV>, passes: nat)
    requires
        repo_passes(repo, stack, passes) is Ok,
        names_unique(stack),
    ensures
        ({
            let st = repo_passes(repo, stack, passes)->Ok_0;
            &&& stack.len() <= st.len()
            &&& (forall|m: int| 0 <= m < stack.len() ==> st[m] == stack[m])
            &&& names_unique(st)
        }),
    decreases passes,
{
    if passes != 0 {
        lemma_pass_items_extends(repo, stack, 0, stack.len() as int);
        let grown = pass_items(repo, stack, 0, stack.len() as int)->Ok_0;
        lemma_repo_passes_extends(repo, grown, (passes - 1) as nat);
    }
}

/// Processing the repositories preserves the prefix and name
/// uniqueness.
proof fn lemma_process_repos_extends(
    repos: Seq<RepositoryIndexV>,
    stack: Seq<PkgIndexV>,
    k: int,
)
    requires
        process_repos(repos, stack, k) is Ok,
        names_unique(stack),
    ensures
        ({
            let st = process_repos(repos, stack, k)->Ok_0;
            &&& stack.len() <= st.len()
            &&& (forall|m: int| 0 <= m < stack.len() ==> st[m] == stack[m])
            &&& names_unique(st)
        }),
    decreases repos.len() - k,
{
    if !(k < 0 || k >= repos.len()) {
        if !repos[k].initialized {
            lemma_process_repos_extends(repos, stack, k + 1);
        } else {
            lemma_repo_passes_extends(repos[k], stack, repos[k].entries.len());
            let grown = repo_passes(repos[k], stack, repos[k].entries.len())->Ok_0;
            lemma_process_repos_extends(repos, grown, k + 1);
        }
    }
}

/// First-discovered wins, deterministically: a resolved stack is a
/// function of the query and the index state alone, its first entry is
/// the root package, and no package name appears twice (when one name
/// is reachable from two repositories, only the first discovery
/// remains).
pub proof fn lemma_resolved_stack_shape(q: PkgToQueryV, repos: Seq<RepositoryIndexV>)
    requires
        resolve_spec(q, repos) is Ok,
    ensures
        ({
            let st = resolve_spec(q, repos)->Ok_0;
            &&& st.len() >= 1
            &&& find_root(repos, q, 0) == Option::Some(st[0])
            &&& names_unique(st)
        }),
{
    let root = find_root(repos, q, 0)->Some_0;
    assert(names_unique(seq![root]));
    lemma_process_repos_extends(repos, seq![root], 0);
    assert(seq![root][0] == root);
}

/// Character-for-character string equality.


fn string_eq(a: &String, b: &String) -> (r: bool)
    ensures
        r == (a@ == b@),
{
    a.eq(b)
}

} // verus!
