use vstd::prelude::*;

verus! {

#[verifier::external_type_specification]
#[verifier::external_body]
pub struct ExGlobSet(globset::GlobSet);

#[verifier::external_type_specification]
#[verifier::external_body]
pub struct ExGlobSetBuilder(globset::GlobSetBuilder);

#[verifier::external_type_specification]
#[verifier::external_body]
pub struct ExGlobError(globset::Error);

/// Whether `pattern` is a syntactically valid glob, as globset's parser decides.
pub uninterp spec fn glob_valid(pattern: Seq<char>) -> bool;

/// Whether the glob `pattern` matches the path text `path`.
pub uninterp spec fn glob_matches(pattern: Seq<char>, path: Seq<char>) -> bool;

/// Whether a glob set builds from the valid patterns `patterns` (it may not, e.g. on size limits).
pub uninterp spec fn glob_set_builds(patterns: Seq<Seq<char>>) -> bool;

/// The patterns held by a glob set, in the order they were added.
pub uninterp spec fn set_patterns(set: globset::GlobSet) -> Seq<Seq<char>>;

/// The patterns added to a glob set builder so far.
pub uninterp spec fn builder_patterns(builder: globset::GlobSetBuilder) -> Seq<Seq<char>>;

/// Whether some pattern of `patterns` matches `path`.
pub open spec fn any_matches(patterns: Seq<Seq<char>>, path: Seq<char>) -> bool {
    exists|i: int| 0 <= i < patterns.len() && glob_matches(#[trigger] patterns[i], path)
}

/// Whether a filter compiles from `patterns`: each is valid and the set builds.
/// With no pattern at all it always compiles.
pub open spec fn filter_builds(patterns: Seq<Seq<char>>) -> bool {
    patterns.len() == 0 || (all_valid(patterns) && glob_set_builds(patterns))
}

/// Whether every pattern of `patterns` is a valid glob.
pub open spec fn all_valid(patterns: Seq<Seq<char>>) -> bool {
    forall|i: int| 0 <= i < patterns.len() ==> glob_valid(#[trigger] patterns[i])
}

/// Relies on globset::GlobSetBuilder::new: a builder that holds no pattern.
#[verifier::external_body]
fn builder_new() -> (r: globset::GlobSetBuilder)
    ensures
        builder_patterns(r) == Seq::<Seq<char>>::empty(),
{
    globset::GlobSetBuilder::new()
}

/// Relies on globset::Glob::new, which parses `pattern` and fails exactly on
/// invalid syntax, and on GlobSetBuilder::add, which appends the parsed glob.
#[verifier::external_body]
fn builder_add(builder: &mut globset::GlobSetBuilder, pattern: &str) -> (r: Result<(), globset::Error>)
    ensures
        r is Ok <==> glob_valid(pattern@),
        r is Ok ==> builder_patterns(*final(builder)) == builder_patterns(*old(builder)).push(pattern@),
        r is Err ==> builder_patterns(*final(builder)) == builder_patterns(*old(builder)),
{
    match globset::Glob::new(pattern) {
        Ok(glob) => {
            builder.add(glob);
            Ok(())
        },
        Err(e) => Err(e),
    }
}

/// Relies on globset::GlobSetBuilder::build: whether it succeeds depends on the
/// builder's patterns alone, with no pattern it gives the empty set, and on success
/// the set holds the builder's patterns.
#[verifier::external_body]
fn builder_build(builder: &globset::GlobSetBuilder) -> (r: Result<globset::GlobSet, globset::Error>)
    ensures
        r is Ok <==> glob_set_builds(builder_patterns(*builder)),
        builder_patterns(*builder).len() == 0 ==> r is Ok,
        r is Ok ==> set_patterns(r->Ok_0) == builder_patterns(*builder),
{
    builder.build()
}

/// Relies on globset::GlobSet::empty: a set without patterns.
#[verifier::external_body]
fn set_empty() -> (r: globset::GlobSet)
    ensures
        set_patterns(r) == Seq::<Seq<char>>::empty(),
{
    globset::GlobSet::empty()
}

/// Relies on globset::GlobSet::is_match: true iff any glob of the set matches the path.
#[verifier::external_body]
fn set_is_match(set: &globset::GlobSet, path: &str) -> (r: bool)
    ensures
        r == (exists|i: int| 0 <= i < set_patterns(*set).len() && glob_matches(#[trigger] set_patterns(*set)[i], path@)),
{
    set.is_match(path)
}

/// Whether a pattern match includes (`OptIn`) or excludes (`OptOut`) a path.
#[derive(Clone, Copy, Debug, PartialEq, Eq, Structural)]
pub enum FsMessageFilterMode {
    OptIn,
    OptOut,
}

/// The inclusion rule for a path under `mode` and the pattern list `patterns`.
pub open spec fn filter_accepts(mode: FsMessageFilterMode, patterns: Seq<Seq<char>>, path: Seq<char>) -> bool {
    match mode {
        FsMessageFilterMode::OptIn => any_matches(patterns, path),
        FsMessageFilterMode::OptOut => !any_matches(patterns, path),
    }
}

/// Decides per path whether it is reported, from a mode and a compiled glob set.
pub struct FsMessageFilter {
    mode: FsMessageFilterMode,
    globs: globset::GlobSet,
}

impl FsMessageFilter {
    pub closed spec fn mode(&self) -> FsMessageFilterMode {
        self.mode
    }

    pub closed spec fn patterns(&self) -> Seq<Seq<char>> {
        set_patterns(self.globs)
    }

    /// Whether this filter lets `path` through.
    pub open spec fn accepts(&self, path: Seq<char>) -> bool {
        filter_accepts(self.mode(), self.patterns(), path)
    }

    /// Compiles `globs` into a filter; fails if any pattern is not a valid glob, or
    /// if the set of valid patterns does not build.
    pub fn create(mode: FsMessageFilterMode, globs: Vec<String>) -> (r: Result<Self, globset::Error>)
        ensures
            r is Ok <==> filter_builds(globs@.map_values(|g: String| g@)),
            r is Ok ==> r->Ok_0.mode() == mode,
            r is Ok ==> r->Ok_0.patterns() == globs@.map_values(|g: String| g@),
    {
        let mut builder = builder_new();
        let mut i: usize = 0;
        while i < globs.len()
            invariant
                i <= globs.len(),
                builder_patterns(builder) == globs@.subrange(0, i as int).map_values(|g: String| g@),
                all_valid(globs@.subrange(0, i as int).map_values(|g: String| g@)),
            decreases globs.len() - i,
        {
            let added = builder_add(&mut builder, globs[i].as_str());
            if let Err(e) = added {
                proof {
                    let pats = globs@.map_values(|g: String| g@);
                    assert(pats[i as int] == globs@[i as int]@);
                    assert(!glob_valid(pats[i as int]));
                }
                return Err(e);
            }
            proof {
                assert(globs@.subrange(0, i + 1).map_values(|g: String| g@)
                    =~= globs@.subrange(0, i as int).map_values(|g: String| g@).push(globs@[i as int]@));
            }
            i = i + 1;
        }
        proof {
            assert(globs@.subrange(0, i as int) =~= globs@);
        }
        let set = builder_build(&builder)?;
        Ok(FsMessageFilter { mode, globs: set })
    }

    /// The filter that lets every path through: opt-out with no patterns.
    pub fn empty() -> (r: Self)
        ensures
            r.mode() == FsMessageFilterMode::OptOut,
            r.patterns() == Seq::<Seq<char>>::empty(),
            forall|p: Seq<char>| r.accepts(p),
    {
        FsMessageFilter { mode: FsMessageFilterMode::OptOut, globs: set_empty() }
    }

    /// Under `OptIn` true iff some pattern matches `path`; under `OptOut` true iff none does.
    pub fn is_match(&self, path: &str) -> (r: bool)
        ensures
            r == self.accepts(path@),
    {
        match self.mode {
            FsMessageFilterMode::OptIn => set_is_match(&self.globs, path),
            FsMessageFilterMode::OptOut => !set_is_match(&self.globs, path),
        }
    }
}

/// The filter that the configuration asks for: opt-out patterns take precedence
/// over opt-in ones, and with neither no filter is built.
pub fn build_filter(filter_optout: Option<Vec<String>>, filter_optin: Option<Vec<String>>) -> (r: Result<Option<FsMessageFilter>, globset::Error>)
    ensures
        filter_optout is Some ==> ({
            let g = filter_optout->Some_0@.map_values(|g: String| g@);
            &&& r is Ok <==> filter_builds(g)
            &&& r is Ok ==> r->Ok_0 is Some && r->Ok_0->Some_0.mode() == FsMessageFilterMode::OptOut
                && r->Ok_0->Some_0.patterns() == g
        }),
        filter_optout is None && filter_optin is Some ==> ({
            let g = filter_optin->Some_0@.map_values(|g: String| g@);
            &&& r is Ok <==> filter_builds(g)
            &&& r is Ok ==> r->Ok_0 is Some && r->Ok_0->Some_0.mode() == FsMessageFilterMode::OptIn
                && r->Ok_0->Some_0.patterns() == g
        }),
        filter_optout is None && filter_optin is None ==> r == Ok::<Option<FsMessageFilter>, globset::Error>(None),
{
    if let Some(globs) = filter_optout {
        let filter = FsMessageFilter::create(FsMessageFilterMode::OptOut, globs)?;
        return Ok(Some(filter));
    }
    if let Some(globs) = filter_optin {
        let filter = FsMessageFilter::create(FsMessageFilterMode::OptIn, globs)?;
        return Ok(Some(filter));
    }
    Ok(None)
}

impl Default for FsMessageFilter {
    fn default() -> (r: Self)
        ensures
            r.mode() == FsMessageFilterMode::OptOut,
            r.patterns() == Seq::<Seq<char>>::empty(),
    {
        Self::empty()
    }
}

} // verus!
