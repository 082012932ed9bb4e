//! Exclusion matching: a list of gitignore-syntax pattern lines compiled into
//! one matcher, queried with a path and a directory flag. Matching follows the
//! `ignore` crate: later lines override earlier ones, `!` lines re-include,
//! trailing `/` restricts a line to directories, and all lines are rooted at a
//! single synthetic root so the same set applies wherever the inputs lie.

use vstd::prelude::*;

use crate::pack::PackError;

verus! {

#[verifier::external_type_specification]
#[verifier::external_body]
pub struct ExGitignore(ignore::gitignore::Gitignore);

#[verifier::external_type_specification]
#[verifier::external_body]
pub struct ExGitignoreBuilder(ignore::gitignore::GitignoreBuilder);

/// The glob texts a builder has stored so far, in order.
pub uninterp spec fn builder_lines(b: ignore::gitignore::GitignoreBuilder) -> Seq<Seq<char>>;

/// The glob texts a compiled matcher answers for, in order.
pub uninterp spec fn gitignore_lines(g: ignore::gitignore::Gitignore) -> Seq<Seq<char>>;

/// The glob texts one accepted line contributes: none for a comment line or
/// for a line blank after trimming, else exactly the stored text, the line
/// trimmed of trailing whitespace.
pub uninterp spec fn stored_glob(line: Seq<char>) -> Seq<Seq<char>>;

/// Whether one pattern line parses as a glob.
pub uninterp spec fn pattern_ok(line: Seq<char>) -> bool;

/// Whether a builder holding exactly these glob texts compiles into a
/// matcher: a function of the texts alone, since the build works on the
/// stored globs and nothing else.
pub uninterp spec fn builds_ok(lines: Seq<Seq<char>>) -> bool;

/// The glob texts a whole pattern list contributes, in order.
pub open spec fn stored_lines(patterns: Seq<Seq<char>>) -> Seq<Seq<char>>
    decreases patterns.len(),
{
    if patterns.len() == 0 {
        Seq::<Seq<char>>::empty()
    } else {
        stored_lines(patterns.drop_last()) + stored_glob(patterns.last())
    }
}

/// Whether a path, or any of its parent directories, is excluded by the given
/// pattern lines, the last matching line winning.
pub uninterp spec fn excluded_by(rules: Seq<Seq<char>>, path: Seq<char>, is_dir: bool) -> bool;

/// Relies on ignore::gitignore::GitignoreBuilder::new: a fresh builder, rooted
/// here at "/", holds no globs.
#[verifier::external_body]
fn builder_new() -> (b: ignore::gitignore::GitignoreBuilder)
    ensures
        builder_lines(b) == Seq::<Seq<char>>::empty(),
{
    ignore::gitignore::GitignoreBuilder::new(std::path::Path::new("/"))
}

/// Relies on ignore::gitignore::GitignoreBuilder::add_line: a line is accepted
/// exactly when its glob parses, which depends on the line alone; on success
/// the builder gains the line's stored glob text — nothing for a comment or
/// blank line, else the line trimmed of trailing whitespace — and on failure
/// it is returned untouched.
#[verifier::external_body]
fn builder_add_line(b: &mut ignore::gitignore::GitignoreBuilder, line: &String) -> (r: Result<
    (),
    String,
>)
    ensures
        r is Ok <==> pattern_ok(line@),
        r is Ok ==> builder_lines(*final(b)) == builder_lines(*old(b)) + stored_glob(line@),
        r is Err ==> builder_lines(*final(b)) == builder_lines(*old(b)),
{
    match b.add_line(None, line.as_str()) {
        Ok(_) => Ok(()),
        Err(e) => Err(e.to_string()),
    }
}

/// Relies on ignore::gitignore::GitignoreBuilder::build: it compiles the glob
/// set of the stored texts, succeeding or failing as a function of those
/// texts alone, and on success the matcher answers for exactly them.
#[verifier::external_body]
fn builder_build(b: &ignore::gitignore::GitignoreBuilder) -> (r: Result<
    ignore::gitignore::Gitignore,
    String,
>)
    ensures
        r is Ok <==> builds_ok(builder_lines(*b)),
        r matches Ok(g) ==> gitignore_lines(g) == builder_lines(*b),
{
    match b.build() {
        Ok(g) => Ok(g),
        Err(e) => Err(e.to_string()),
    }
}

/// Relies on ignore::gitignore::Gitignore::matched_path_or_any_parents:
/// whether the path or any of its parents matches the matcher's lines, the
/// last matching line winning; a function of the lines, the path and the flag
/// alone. The call panics only on a rooted path under a differently-rooted
/// matcher; with the matcher rooted at "/", stripping the root leaves every
/// path rootless, so it returns for every path — and `builder_new`, the only
/// constructor in this crate, hard-codes that root.
#[verifier::external_body]
fn gitignore_matches(g: &ignore::gitignore::Gitignore, path: &String, is_dir: bool) -> (r: bool)
    ensures
        r == excluded_by(gitignore_lines(*g), path@, is_dir),
{
    matches!(
        g.matched_path_or_any_parents(std::path::Path::new(path.as_str()), is_dir),
        ignore::Match::Ignore(_)
    )
}

/// A compiled set of exclusion pattern lines, immutable after construction.
pub struct ExclusionMatcher {
    gi: ignore::gitignore::Gitignore,
}

impl ExclusionMatcher {
    /// The stored glob texts this matcher was built from, in order.
    pub closed spec fn rules(&self) -> Seq<Seq<char>> {
        gitignore_lines(self.gi)
    }

    /// Whether the given path, or any of its parent directories, is excluded.
    pub fn matches(&self, path: &String, is_dir: bool) -> (r: bool)
        ensures
            r == excluded_by(self.rules(), path@, is_dir),
    {
        gitignore_matches(&self.gi, path, is_dir)
    }
}

/// Compiles exclusion pattern lines into one matcher. Any line whose glob
/// does not parse fails the whole build; no partial matcher is built; a set
/// whose lines all parse and compile always yields a matcher, holding the
/// lines' stored texts — comment and blank lines contribute nothing.
pub fn parse_ignore_string(patterns: Vec<String>) -> (r: Result<ExclusionMatcher, PackError>)
    ensures
        r matches Ok(m) ==> m.rules() == stored_lines(patterns.deep_view()),
        r is Ok <==> (forall|i: int| 0 <= i < patterns@.len() ==> pattern_ok(#[trigger] patterns@[i]@))
            && builds_ok(stored_lines(patterns.deep_view())),
        r matches Err(e) ==> e is Pattern,
{
    let mut builder = builder_new();
    let mut k: usize = 0;
    while k < patterns.len()
        invariant
            k <= patterns@.len(),
            builder_lines(builder) =~= stored_lines(patterns.deep_view().take(k as int)),
            forall|i: int| 0 <= i < k ==> pattern_ok(#[trigger] patterns@[i]@),
        decreases patterns@.len() - k,
    {
        match builder_add_line(&mut builder, &patterns[k]) {
            Ok(()) => {
                proof {
                    let taken = patterns.deep_view().take(k + 1);
                    assert(taken.drop_last() =~= patterns.deep_view().take(k as int));
                    assert(taken.last() == patterns@[k as int]@);
                }
            },
            Err(msg) => {
                return Err(PackError::Pattern(msg));
            },
        }
        k = k + 1;
    }
    proof {
        assert(patterns.deep_view().take(patterns@.len() as int) =~= patterns.deep_view());
    }
    match builder_build(&builder) {
        Ok(g) => Ok(ExclusionMatcher { gi: g }),
        Err(msg) => Err(PackError::Pattern(msg)),
    }
}

} // verus!
