//! `.galleryignore` and global ignore rules, in gitignore syntax.
//!
//! Precedence: global rules are evaluated first, then `.galleryignore` files
//! from the source root down to the leaf, as one combined ordered list with
//! last-matching-rule-wins evaluation. Negation (`!`) at any level can
//! un-ignore, and the last matching rule across the whole list decides.

use ignore::gitignore::{Gitignore, GitignoreBuilder};
use vstd::prelude::*;

use crate::path::join_with;
use crate::text::{
    append_chars, append_str, chars_of, decimal, decimal_chars, string_from_chars, string_views,
};

verus! {

#[verifier::external_type_specification]
#[verifier::external_body]
pub struct ExGitignore(Gitignore);

#[verifier::external_type_specification]
#[verifier::external_body]
pub struct ExGitignoreBuilder(GitignoreBuilder);

/// Source label of settings-provided patterns in validation errors.
pub const GLOBAL_RULES_SOURCE: &'static str = "global rules";

/// Default global ignore patterns pre-populated on first launch.
pub const DEFAULT_GLOBAL_PATTERNS: [&'static str; 8] = [
    ".git/",
    "node_modules/",
    ".Trash/",
    ".cache/",
    "*.tmp",
    "*.part",
    ".DS_Store",
    "Thumbs.db",
];

/// A single invalid ignore-rule line, collected during validation.
///
/// Invalid lines never partially apply: a rule set with any invalid line is
/// rejected as a whole, and each error carries its source and 1-based line
/// number so the settings dialog can surface it.
#[derive(Debug, Clone, PartialEq, Eq)]
pub struct IgnoreValidationError {
    /// Where the invalid line came from: a `.galleryignore` path, or
    /// [`GLOBAL_RULES_SOURCE`] for settings-provided patterns.
    pub source: String,
    /// 1-based line number within `source`, when it can be attributed to a line.
    pub line: Option<usize>,
    /// Human-readable reason the line is invalid.
    pub message: String,
}

/// Errors of the indexing layer.
#[derive(Debug, Clone, PartialEq, Eq)]
pub enum IndexError {
    ReadDir { path: String, message: String },
    Metadata { path: String, message: String },
    Symlink { path: String, message: String },
    IgnoreParse { path: String, message: String },
    /// The scan event channel closed; fatal to the whole walk.
    ChannelSend,
    /// The source root exists but is not a directory.
    NotADirectory { path: String },
    NotFound { path: String },
}

/// The outcome of matching one path against one rule set.
#[derive(Debug, Clone, Copy, PartialEq, Eq, Structural)]
pub enum IgnoreMatch {
    /// No rule of the set matched.
    NoMatch,
    /// The last matching rule of the set ignores the path.
    Ignore,
    /// The last matching rule of the set is a negation (`!`) that un-ignores it.
    Whitelist,
}

/// Whether `ignore`'s gitignore parser accepts `line` as a rule line (comment
/// and blank lines are accepted and add nothing).
pub uninterp spec fn gitignore_line_valid(line: Seq<char>) -> bool;

/// `GitignoreBuilder::new`: an empty rule builder whose rules are relative to
/// `root`.
#[verifier::external_body]
fn new_builder(root: &str) -> GitignoreBuilder {
    GitignoreBuilder::new(root)
}

/// `GitignoreBuilder::add_line` (with no source file), the error rendered as
/// text. In the crate's source a line starting with `#` is a comment and is
/// accepted; a rejected line is reported as `error parsing glob '…': …`, which
/// is never empty. Whether a line is accepted depends on the line alone (the
/// builder's case and class settings are never changed here).
#[verifier::external_body]
fn builder_add_line(builder: &mut GitignoreBuilder, line: &str) -> (r: Result<(), String>)
    ensures
        r is Ok <==> gitignore_line_valid(line@),
        r matches Err(m) ==> m@.len() > 0,
        (line@.len() > 0 && line@[0] == '#') ==> r is Ok,
{
    match builder.add_line(None, line) {
        Ok(_) => Ok(()),
        Err(e) => Err(e.to_string()),
    }
}

/// Whether `GitignoreBuilder::build` succeeds for a builder made for `root`
/// that was given `lines`, each accepted by `add_line`: compiling the combined
/// glob set depends on the rules alone.
pub uninterp spec fn gitignore_set_builds(root: Seq<char>, lines: Seq<Seq<char>>) -> bool;

/// A rule builder kept with what it was given: the root it was made for and
/// the lines `add_line` accepted, in order. Only [`RuleBuilder::new`] and
/// [`RuleBuilder::add`] touch it, and they keep the three in step.
struct RuleBuilder {
    root: String,
    lines: Vec<String>,
    builder: GitignoreBuilder,
}

/// `GitignoreBuilder::build`, the error rendered as text. It succeeds exactly
/// when the accepted lines compile into one glob set.
#[verifier::external_body]
fn builder_build(b: &RuleBuilder) -> (r: Result<Gitignore, String>)
    ensures
        r is Ok <==> gitignore_set_builds(b.root@, string_views(b.lines@)),
{
    b.builder.build().map_err(|e| e.to_string())
}

impl RuleBuilder {
    fn new(root: &str) -> (b: Self)
        ensures
            b.root@ == root@,
            b.lines@.len() == 0,
    {
        RuleBuilder { root: string_from_chars(&chars_of(root)), lines: Vec::new(), builder: new_builder(root) }
    }

    /// Adds one line; a rejected line leaves the builder as it was.
    fn add(&mut self, line: &str) -> (r: Result<(), String>)
        ensures
            r is Ok <==> gitignore_line_valid(line@),
            r matches Err(m) ==> m@.len() > 0,
            final(self).root == old(self).root,
            r is Ok ==> string_views(final(self).lines@) == string_views(old(self).lines@).push(
                line@,
            ),
            r is Err ==> final(self).lines@ == old(self).lines@,
    {
        let r = builder_add_line(&mut self.builder, line);
        if r.is_ok() {
            let ghost before = self.lines@;
            self.lines.push(string_from_chars(&chars_of(line)));
            assert(string_views(self.lines@) =~= string_views(before).push(line@));
        }
        r
    }
}

/// A compiled rule set, kept with what it was compiled from: the folder its
/// patterns are relative to and its lines, in order. The only way to make one
/// is [`compile_rules`], which feeds exactly these lines to a builder made for
/// exactly this root.
#[derive(Debug)]
pub struct IgnoreRules {
    root: String,
    lines: Vec<String>,
    matcher: Gitignore,
}

impl View for IgnoreRules {
    type V = (Seq<char>, Seq<Seq<char>>);

    closed spec fn view(&self) -> (Seq<char>, Seq<Seq<char>>) {
        (self.root@, string_views(self.lines@))
    }
}

/// What `Gitignore::matched(path, is_dir)` answers for the matcher that
/// `GitignoreBuilder::new(root)`, `add_line` of each of `lines` in order and
/// `build` make: the last rule whose glob matches decides (`Ignore`, or
/// `Whitelist` for a `!` rule), `NoMatch` when none does.
pub uninterp spec fn gitignore_outcome(
    root: Seq<char>,
    lines: Seq<Seq<char>>,
    path: Seq<char>,
    is_dir: bool,
) -> IgnoreMatch;

/// `Gitignore::matched`, with `ignore::Match` mapped to [`IgnoreMatch`]. The
/// answer is a function of the root and lines the matcher was built from (the
/// builder's case and class settings are never changed here) and of the path.
#[verifier::external_body]
fn rules_matched(rules: &IgnoreRules, path: &str, is_dir: bool) -> (r: IgnoreMatch)
    ensures
        r == gitignore_outcome(rules@.0, rules@.1, path@, is_dir),
{
    match rules.matcher.matched(path, is_dir) {
        ignore::Match::None => IgnoreMatch::NoMatch,
        ignore::Match::Ignore(_) => IgnoreMatch::Ignore,
        ignore::Match::Whitelist(_) => IgnoreMatch::Whitelist,
    }
}

impl IgnoreRules {
    /// How this rule set answers for `path`.
    pub fn matched(&self, path: &str, is_dir: bool) -> (r: IgnoreMatch)
        ensures
            r == gitignore_outcome(self@.0, self@.1, path@, is_dir),
    {
        rules_matched(self, path, is_dir)
    }
}

/// The compiled rule set of everything `b` accepted; a failed build is an
/// `IgnoreParse` error naming `source`.
fn finish_rules(b: RuleBuilder, source: &str) -> (r: Result<IgnoreRules, IndexError>)
    ensures
        r is Ok <==> gitignore_set_builds(b.root@, string_views(b.lines@)),
        r matches Ok(rules) ==> rules@ == (b.root@, string_views(b.lines@)),
        r matches Err(e) ==> (e matches IndexError::IgnoreParse { path, message: _ } && path@
            == source@),
{
    match builder_build(&b) {
        Ok(matcher) => Ok(IgnoreRules { root: b.root, lines: b.lines, matcher }),
        Err(message) => Err(
            IndexError::IgnoreParse { path: string_from_chars(&chars_of(source)), message },
        ),
    }
}

/// Compiles `lines` into a rule set relative to `root`. The first line the
/// parser rejects aborts with an `IgnoreParse` error naming `source`, as does a
/// failure to build the combined matcher.
fn compile_rules(root: &str, lines: &[String], source: &str) -> (r: Result<IgnoreRules, IndexError>)
    ensures
        r matches Ok(rules) ==> rules@ == (root@, string_views(lines@)),
        r is Ok ==> forall|i: int|
            0 <= i < lines@.len() ==> gitignore_line_valid(#[trigger] lines@[i]@),
        (exists|i: int| 0 <= i < lines@.len() && !gitignore_line_valid(#[trigger] lines@[i]@))
            ==> (r matches Err(IndexError::IgnoreParse { path, message: _ }) && path@ == source@),
        (forall|i: int| 0 <= i < lines@.len() ==> gitignore_line_valid(#[trigger] lines@[i]@))
            && gitignore_set_builds(root@, string_views(lines@)) ==> r is Ok,
        r matches Err(e) ==> (e matches IndexError::IgnoreParse { path, message: _ } && path@
            == source@),
{
    let mut b = RuleBuilder::new(root);
    let mut i: usize = 0;
    while i < lines.len()
        invariant
            0 <= i <= lines.len(),
            b.root@ == root@,
            string_views(b.lines@) == string_views(lines@).take(i as int),
            forall|j: int| 0 <= j < i ==> gitignore_line_valid(#[trigger] lines@[j]@),
        decreases lines.len() - i,
    {
        match b.add(lines[i].as_str()) {
            Ok(()) => {},
            Err(message) => {
                return Err(
                    IndexError::IgnoreParse {
                        path: string_from_chars(&chars_of(source)),
                        message,
                    },
                );
            },
        }
        assert(string_views(lines@).take(i as int + 1) =~= string_views(lines@).take(i as int).push(
            lines@[i as int]@,
        ));
        i += 1;
    }
    assert(string_views(lines@).take(lines@.len() as int) =~= string_views(lines@));
    finish_rules(b, source)
}

/// Indices (0-based, increasing) of the lines the parser rejects.
pub open spec fn invalid_indices(lines: Seq<Seq<char>>) -> Seq<int>
    decreases lines.len(),
{
    if lines.len() == 0 {
        seq![]
    } else {
        let rest = invalid_indices(lines.drop_last());
        if gitignore_line_valid(lines.last()) {
            rest
        } else {
            rest.push(lines.len() - 1)
        }
    }
}

proof fn lemma_invalid_indices_empty_iff_all_valid(lines: Seq<Seq<char>>)
    ensures
        (invalid_indices(lines).len() == 0) == (forall|i: int|
            0 <= i < lines.len() ==> gitignore_line_valid(#[trigger] lines[i])),
    decreases lines.len(),
{
    if lines.len() > 0 {
        lemma_invalid_indices_empty_iff_all_valid(lines.drop_last());
        assert forall|i: int| 0 <= i < lines.len() - 1 implies lines.drop_last()[i] == lines[i] by {}
    }
}

/// A validation error for line `index` of the global rules.
pub open spec fn is_global_line_error(e: IgnoreValidationError, index: int) -> bool {
    &&& e.source@ == GLOBAL_RULES_SOURCE@
    &&& e.line == Some((index + 1) as usize)
    &&& e.message@.len() > 0
}

/// Validates global ignore patterns line by line.
///
/// Returns the built matcher when every pattern is valid, or all invalid lines
/// (with 1-based line numbers) otherwise. On any invalid line no matcher is
/// built, so invalid patterns never partially apply.
pub fn validate_global_patterns(patterns: &[String]) -> (r: Result<
    IgnoreRules,
    Vec<IgnoreValidationError>,
>)
    ensures
        ({
            let bad = invalid_indices(string_views(patterns@));
            &&& bad.len() > 0 ==> (r matches Err(errors) && errors@.len() == bad.len() && forall|
                k: int,
            |
                0 <= k < bad.len() ==> is_global_line_error(#[trigger] errors@[k], bad[k]))
            &&& bad.len() == 0 ==> (r is Ok || (r matches Err(errors) && errors@.len() == 1
                && errors@[0].source@ == GLOBAL_RULES_SOURCE@ && errors@[0].line is None))
        }),
        r matches Ok(rules) ==> rules@ == ("/"@, string_views(patterns@)),
        invalid_indices(string_views(patterns@)).len() == 0 && gitignore_set_builds(
            "/"@,
            string_views(patterns@),
        ) ==> r is Ok,
{
    let mut builder = new_builder("/");
    let mut errors: Vec<IgnoreValidationError> = Vec::new();
    let mut i: usize = 0;
    while i < patterns.len()
        invariant
            0 <= i <= patterns.len(),
            errors@.len() == invalid_indices(string_views(patterns@).take(i as int)).len(),
            forall|k: int|
                0 <= k < errors@.len() ==> is_global_line_error(
                    #[trigger] errors@[k],
                    invalid_indices(string_views(patterns@).take(i as int))[k],
                ),
        decreases patterns.len() - i,
    {
        let ghost before = string_views(patterns@).take(i as int);
        assert(string_views(patterns@).take(i as int + 1).drop_last() == before);
        assert(string_views(patterns@).take(i as int + 1).last() == patterns@[i as int]@);
        match builder_add_line(&mut builder, patterns[i].as_str()) {
            Ok(()) => {},
            Err(message) => {
                errors.push(
                    IgnoreValidationError {
                        source: string_from_chars(&chars_of(GLOBAL_RULES_SOURCE)),
                        line: Some(i + 1),
                        message,
                    },
                );
            },
        }
        i += 1;
    }
    assert(string_views(patterns@).take(patterns.len() as int) == string_views(patterns@));
    if errors.len() > 0 {
        return Err(errors);
    }
    proof {
        lemma_invalid_indices_empty_iff_all_valid(string_views(patterns@));
        if invalid_indices(string_views(patterns@)).len() == 0 {
            assert forall|j: int| 0 <= j < patterns@.len() implies gitignore_line_valid(
                #[trigger] patterns@[j]@,
            ) by {
                assert(string_views(patterns@)[j] == patterns@[j]@);
            }
        }
    }
    match compile_rules("/", patterns, GLOBAL_RULES_SOURCE) {
        Ok(rules) => Ok(rules),
        Err(e) => {
            let message = match e {
                IndexError::IgnoreParse { path: _, message } => message,
                _ => String::new(),
            };
            let mut single: Vec<IgnoreValidationError> = Vec::new();
            single.push(
                IgnoreValidationError {
                    source: string_from_chars(&chars_of(GLOBAL_RULES_SOURCE)),
                    line: None,
                    message,
                },
            );
            Err(single)
        },
    }
}

/// An error from parsing the global rules.
pub open spec fn is_global_parse_error(r: Result<IgnoreRules, IndexError>) -> bool {
    match r {
        Err(IndexError::IgnoreParse { path, message: _ }) => path@ == GLOBAL_RULES_SOURCE@,
        _ => false,
    }
}

/// Builds the matcher for the global patterns. Global rules apply to all
/// source roots; the matcher is rooted at `/` so basename patterns (e.g.
/// `*.tmp`) match at any depth. The first rejected line aborts the build.
pub fn build_global_rules(patterns: &[String]) -> (r: Result<IgnoreRules, IndexError>)
    ensures
        r matches Ok(rules) ==> rules@ == ("/"@, string_views(patterns@)),
        r is Ok ==> forall|i: int|
            0 <= i < patterns@.len() ==> gitignore_line_valid(#[trigger] patterns@[i]@),
        (exists|i: int| 0 <= i < patterns@.len() && !gitignore_line_valid(#[trigger] patterns@[i]@))
            ==> is_global_parse_error(r),
        r is Err ==> is_global_parse_error(r),
        (forall|i: int| 0 <= i < patterns@.len() ==> gitignore_line_valid(#[trigger] patterns@[i]@))
            && gitignore_set_builds("/"@, string_views(patterns@)) ==> r is Ok,
{
    compile_rules("/", patterns, GLOBAL_RULES_SOURCE)
}

/// `s` without the byte-order marks it starts with.
pub open spec fn without_bom(s: Seq<char>) -> Seq<char>
    decreases s.len(),
{
    if s.len() > 0 && s[0] == '\u{feff}' {
        without_bom(s.drop_first())
    } else {
        s
    }
}

/// The rule lines of a `.galleryignore` text: its lines, the first one without
/// a leading byte-order mark.
pub open spec fn file_rule_lines(text: Seq<char>) -> Seq<Seq<char>> {
    let lines = text_lines(text);
    if lines.len() == 0 {
        lines
    } else {
        lines.update(0, without_bom(lines[0]))
    }
}

/// How one rejected line of a `.galleryignore` is reported: the file, the
/// 1-based line number, and the parser's reason.
pub open spec fn file_line_error(source: Seq<char>, index: int, reason: Seq<char>) -> Seq<char> {
    source + ": line "@ + decimal((index + 1) as nat) + ": "@ + reason
}

fn strip_bom(s: &str) -> (r: String)
    ensures
        r@ == without_bom(s@),
{
    let chars = chars_of(s);
    let mut i: usize = 0;
    proof {
        assert(chars@.subrange(0, chars@.len() as int) =~= chars@);
    }
    while i < chars.len() && chars[i] == '\u{feff}'
        invariant
            0 <= i <= chars@.len(),
            chars@ == s@,
            without_bom(s@) == without_bom(chars@.subrange(i as int, chars@.len() as int)),
        decreases chars@.len() - i,
    {
        assert(chars@.subrange(i as int, chars@.len() as int).drop_first() =~= chars@.subrange(
            i as int + 1,
            chars@.len() as int,
        ));
        i += 1;
    }
    let mut out: Vec<char> = Vec::new();
    let mut k: usize = i;
    while k < chars.len()
        invariant
            i <= k <= chars@.len(),
            out@ == chars@.subrange(i as int, k as int),
        decreases chars@.len() - k,
    {
        out.push(chars[k]);
        assert(out@ =~= chars@.subrange(i as int, k + 1));
        k += 1;
    }
    string_from_chars(&out)
}

/// Compiles the text of the `.galleryignore` at `source` in folder `dir`, one
/// rule per line (a byte-order mark at the start of the file is dropped).
/// Every rejected line is reported, one per line of the error message, and
/// any of them fails the whole file.
pub fn directory_rules(dir: &str, text: &str, source: &str) -> (r: Result<IgnoreRules, IndexError>)
    ensures
        r matches Ok(rules) ==> rules@ == (dir@, file_rule_lines(text@)),
        ({
            let bad = invalid_indices(file_rule_lines(text@));
            &&& bad.len() > 0 ==> (r matches Err(IndexError::IgnoreParse { path, message })
                && path@ == source@ && exists|reasons: Seq<Seq<char>>|
                {
                    &&& reasons.len() == bad.len()
                    &&& forall|k: int| 0 <= k < bad.len() ==> (#[trigger] reasons[k]).len() > 0
                    &&& message@ == join_with(
                        Seq::new(
                            bad.len(),
                            |k: int| file_line_error(source@, bad[k], reasons[k]),
                        ),
                        '\n',
                    )
                })
            &&& bad.len() == 0 && gitignore_set_builds(dir@, file_rule_lines(text@)) ==> r is Ok
        }),
        r matches Err(e) ==> (e matches IndexError::IgnoreParse { path, message: _ } && path@
            == source@),
{
    let mut lines = ignore_rules_from_text(text);
    if lines.len() > 0 {
        let first = strip_bom(lines[0].as_str());
        lines.set(0, first);
    }
    let ghost all = file_rule_lines(text@);
    assert(string_views(lines@) =~= all);
    let mut b = RuleBuilder::new(dir);
    let mut failures: Vec<Vec<char>> = Vec::new();
    let ghost mut reasons: Seq<Seq<char>> = seq![];
    let mut i: usize = 0;
    while i < lines.len()
        invariant
            0 <= i <= lines.len(),
            all == string_views(lines@),
            b.root@ == dir@,
            ({
                let bad = invalid_indices(all.take(i as int));
                &&& failures@.len() == bad.len()
                &&& reasons.len() == bad.len()
                &&& forall|k: int| 0 <= k < bad.len() ==> (#[trigger] reasons[k]).len() > 0
                &&& forall|k: int|
                    0 <= k < bad.len() ==> (#[trigger] failures@[k])@ == file_line_error(
                        source@,
                        bad[k],
                        reasons[k],
                    )
                &&& bad.len() == 0 ==> string_views(b.lines@) == all.take(i as int)
            }),
        decreases lines.len() - i,
    {
        assert(all.take(i as int + 1).drop_last() =~= all.take(i as int));
        assert(all.take(i as int + 1).last() == lines@[i as int]@);
        match b.add(lines[i].as_str()) {
            Ok(()) => {
                assert(all.take(i as int + 1) =~= all.take(i as int).push(lines@[i as int]@));
            },
            Err(reason) => {
                let mut text_out = chars_of(source);
                append_str(&mut text_out, ": line ");
                append_chars(&mut text_out, &decimal_chars((i + 1) as u64));
                append_str(&mut text_out, ": ");
                append_str(&mut text_out, reason.as_str());
                proof {
                    reasons = reasons.push(reason@);
                }
                failures.push(text_out);
            },
        }
        i += 1;
    }
    assert(all.take(lines@.len() as int) =~= all);
    if failures.len() > 0 {
        let mut message: Vec<char> = Vec::new();
        let ghost pieces = Seq::new(
            invalid_indices(all).len(),
            |k: int| file_line_error(source@, invalid_indices(all)[k], reasons[k]),
        );
        let mut k: usize = 0;
        while k < failures.len()
            invariant
                0 <= k <= failures@.len(),
                failures@.len() == pieces.len(),
                forall|j: int| 0 <= j < pieces.len() ==> (#[trigger] failures@[j])@ == pieces[j],
                message@ == join_with(pieces.take(k as int), '\n'),
            decreases failures@.len() - k,
        {
            assert(pieces.take(k as int + 1).drop_last() =~= pieces.take(k as int));
            if k > 0 {
                message.push('\n');
            }
            append_chars(&mut message, &failures[k]);
            proof {
                if k == 0 {
                    assert(message@ =~= pieces[0]);
                }
            }
            k += 1;
        }
        assert(pieces.take(pieces.len() as int) =~= pieces);
        return Err(
            IndexError::IgnoreParse {
                path: string_from_chars(&chars_of(source)),
                message: string_from_chars(&message),
            },
        );
    }
    finish_rules(b, source)
}

/// The outcome of each rule set for `path`, in list order: the global rules,
/// then the `.galleryignore` sets from the root down.
pub open spec fn rule_outcomes(
    global: (Seq<char>, Seq<Seq<char>>),
    stack: Seq<(Seq<char>, Seq<Seq<char>>)>,
    path: Seq<char>,
    is_dir: bool,
) -> Seq<IgnoreMatch> {
    seq![gitignore_outcome(global.0, global.1, path, is_dir)] + Seq::new(
        stack.len(),
        |k: int| gitignore_outcome(stack[k].0, stack[k].1, path, is_dir),
    )
}

/// The views of a stack of rule sets.
pub open spec fn rule_views(stack: Seq<IgnoreRules>) -> Seq<(Seq<char>, Seq<Seq<char>>)> {
    Seq::new(stack.len(), |k: int| stack[k]@)
}

/// Last-matching-rule-wins over one ordered list of outcomes: the last
/// definitive outcome decides, and a path nothing matched is not ignored.
pub open spec fn last_match_ignores(outcomes: Seq<IgnoreMatch>) -> bool
    decreases outcomes.len(),
{
    if outcomes.len() == 0 {
        false
    } else {
        match outcomes.last() {
            IgnoreMatch::Ignore => true,
            IgnoreMatch::Whitelist => false,
            IgnoreMatch::NoMatch => last_match_ignores(outcomes.drop_last()),
        }
    }
}

/// Decides an ignore verdict from the per-rule-set outcomes, in list order
/// (global rules first, then `.galleryignore` sets from the root down).
pub fn combine_matches(outcomes: &[IgnoreMatch]) -> (r: bool)
    ensures
        r == last_match_ignores(outcomes@),
{
    let mut ignored = false;
    let mut i: usize = 0;
    while i < outcomes.len()
        invariant
            0 <= i <= outcomes.len(),
            ignored == last_match_ignores(outcomes@.take(i as int)),
        decreases outcomes.len() - i,
    {
        assert(outcomes@.take(i as int + 1).drop_last() == outcomes@.take(i as int));
        match outcomes[i] {
            IgnoreMatch::Ignore => ignored = true,
            IgnoreMatch::Whitelist => ignored = false,
            IgnoreMatch::NoMatch => {},
        }
        i += 1;
    }
    assert(outcomes@.take(outcomes.len() as int) == outcomes@);
    ignored
}

/// A later definitive rule always overrides everything before it: appending
/// an `Ignore` ignores, appending a `Whitelist` un-ignores, and appending a
/// non-match changes nothing.
pub proof fn law_last_match_wins(outcomes: Seq<IgnoreMatch>, later: IgnoreMatch)
    ensures
        later == IgnoreMatch::Ignore ==> last_match_ignores(outcomes.push(later)),
        later == IgnoreMatch::Whitelist ==> !last_match_ignores(outcomes.push(later)),
        later == IgnoreMatch::NoMatch ==> last_match_ignores(outcomes.push(later))
            == last_match_ignores(outcomes),
{
    assert(outcomes.push(later).drop_last() == outcomes);
}

/// Checks whether a path is ignored under one combined ordered list: the
/// global rules first, then the stacked `.galleryignore` rule sets from the
/// source root down to the leaf (`dir_rules_stack` is already in root-to-leaf
/// order). The decision is [`combine_matches`] over the outcome of every set;
/// the outcomes themselves come from the `ignore` crate's matcher.
pub fn is_ignored(
    path: &str,
    is_dir: bool,
    dir_rules_stack: &[IgnoreRules],
    global_rules: &IgnoreRules,
) -> (r: bool)
    ensures
        r == last_match_ignores(
            rule_outcomes(global_rules@, rule_views(dir_rules_stack@), path@, is_dir),
        ),
{
    let mut outcomes: Vec<IgnoreMatch> = Vec::new();
    outcomes.push(global_rules.matched(path, is_dir));
    let ghost all = rule_outcomes(global_rules@, rule_views(dir_rules_stack@), path@, is_dir);
    let mut i: usize = 0;
    while i < dir_rules_stack.len()
        invariant
            0 <= i <= dir_rules_stack.len(),
            all == rule_outcomes(global_rules@, rule_views(dir_rules_stack@), path@, is_dir),
            outcomes@ == all.take(i as int + 1),
        decreases dir_rules_stack.len() - i,
    {
        let m = dir_rules_stack[i].matched(path, is_dir);
        outcomes.push(m);
        assert(outcomes@ =~= all.take(i as int + 2));
        i += 1;
    }
    assert(outcomes@ =~= all);
    combine_matches(&outcomes)
}

/// The lines of `text` as `str::lines` splits them: at `\n`, each line losing
/// a `\r` right before its `\n`, and no empty line after a final `\n`.
pub open spec fn line_scan(s: Seq<char>) -> (Seq<Seq<char>>, Seq<char>)
    decreases s.len(),
{
    if s.len() == 0 {
        (seq![], seq![])
    } else {
        let (done, cur) = line_scan(s.drop_last());
        if s.last() == '\n' {
            (done.push(strip_cr(cur)), seq![])
        } else {
            (done, cur.push(s.last()))
        }
    }
}

pub open spec fn strip_cr(line: Seq<char>) -> Seq<char> {
    if line.len() > 0 && line.last() == '\r' {
        line.drop_last()
    } else {
        line
    }
}

pub open spec fn text_lines(s: Seq<char>) -> Seq<Seq<char>> {
    let (done, cur) = line_scan(s);
    if cur.len() > 0 {
        done.push(cur)
    } else {
        done
    }
}

fn strip_cr_chars(line: Vec<char>) -> (r: Vec<char>)
    ensures
        r@ == strip_cr(line@),
{
    let mut line = line;
    if line.len() > 0 && line[line.len() - 1] == '\r' {
        line.pop();
    }
    line
}

/// Splits the settings text into one rule per line.
pub fn ignore_rules_from_text(text: &str) -> (r: Vec<String>)
    ensures
        string_views(r@) == text_lines(text@),
{
    let chars = chars_of(text);
    let mut done: Vec<String> = Vec::new();
    let mut cur: Vec<char> = Vec::new();
    let mut i: usize = 0;
    while i < chars.len()
        invariant
            0 <= i <= chars.len(),
            chars@ == text@,
            (string_views(done@), cur@) == line_scan(text@.take(i as int)),
        decreases chars.len() - i,
    {
        assert(text@.take(i as int + 1).drop_last() == text@.take(i as int));
        if chars[i] == '\n' {
            let line = strip_cr_chars(cur);
            let s = string_from_chars(&line);
            assert(string_views(done@.push(s)) =~= string_views(done@).push(s@));
            done.push(s);
            cur = Vec::new();
        } else {
            cur.push(chars[i]);
        }
        i += 1;
    }
    assert(text@.take(chars.len() as int) == text@);
    if cur.len() > 0 {
        let s = string_from_chars(&cur);
        assert(string_views(done@.push(s)) =~= string_views(done@).push(s@));
        done.push(s);
    }
    done
}

/// The default patterns, as owned strings.
pub fn default_global_patterns() -> (r: Vec<String>)
    ensures
        r@.len() == DEFAULT_GLOBAL_PATTERNS@.len(),
        forall|i: int| 0 <= i < r@.len() ==> #[trigger] r@[i]@ == DEFAULT_GLOBAL_PATTERNS@[i]@,
{
    let mut r: Vec<String> = Vec::new();
    let mut i: usize = 0;
    while i < DEFAULT_GLOBAL_PATTERNS.len()
        invariant
            0 <= i <= DEFAULT_GLOBAL_PATTERNS@.len(),
            r@.len() == i,
            forall|j: int| 0 <= j < i ==> #[trigger] r@[j]@ == DEFAULT_GLOBAL_PATTERNS@[j]@,
        decreases DEFAULT_GLOBAL_PATTERNS@.len() - i,
    {
        r.push(string_from_chars(&chars_of(DEFAULT_GLOBAL_PATTERNS[i])));
        i += 1;
    }
    r
}

/// The views of the default patterns.
pub open spec fn default_pattern_views() -> Seq<Seq<char>> {
    Seq::new(DEFAULT_GLOBAL_PATTERNS@.len(), |i: int| DEFAULT_GLOBAL_PATTERNS@[i]@)
}

/// The default patterns as settings text, one per line.
pub fn default_rules_text() -> (r: String)
    ensures
        r@ == join_with(default_pattern_views(), '\n'),
{
    let mut out: Vec<char> = Vec::new();
    let mut i: usize = 0;
    while i < DEFAULT_GLOBAL_PATTERNS.len()
        invariant
            0 <= i <= DEFAULT_GLOBAL_PATTERNS@.len(),
            out@ == join_with(default_pattern_views().take(i as int), '\n'),
        decreases DEFAULT_GLOBAL_PATTERNS@.len() - i,
    {
        let ghost prev = default_pattern_views().take(i as int);
        assert(default_pattern_views().take(i as int + 1).drop_last() == prev);
        if i > 0 {
            out.push('\n');
        }
        append_str(&mut out, DEFAULT_GLOBAL_PATTERNS[i]);
        proof {
            if i == 0 {
                assert(out@ =~= DEFAULT_GLOBAL_PATTERNS@[0]@);
            }
        }
        i += 1;
    }
    assert(default_pattern_views().take(DEFAULT_GLOBAL_PATTERNS@.len() as int)
        == default_pattern_views());
    string_from_chars(&out)
}

/// One validation error as feedback text: `source, line N: message`, or
/// `source: message` when no line is known.
pub open spec fn render_error(e: IgnoreValidationError) -> Seq<char> {
    match e.line {
        Some(n) => e.source@ + ", line "@ + decimal(n as nat) + ": "@ + e.message@,
        None => e.source@ + ": "@ + e.message@,
    }
}

pub open spec fn rendered_errors(errors: Seq<IgnoreValidationError>) -> Seq<Seq<char>> {
    Seq::new(errors.len(), |i: int| render_error(errors[i]))
}

fn render_error_chars(e: &IgnoreValidationError) -> (r: Vec<char>)
    ensures
        r@ == render_error(*e),
{
    let mut out = chars_of(e.source.as_str());
    match e.line {
        Some(n) => {
            append_str(&mut out, ", line ");
            let digits = decimal_chars(n as u64);
            append_chars(&mut out, &digits);
            append_str(&mut out, ": ");
        },
        None => {
            append_str(&mut out, ": ");
        },
    }
    append_str(&mut out, e.message.as_str());
    out
}

/// Feedback text for a rejected rule set: one rendered error per line.
pub fn format_ignore_validation_errors(errors: &[IgnoreValidationError]) -> (r: String)
    ensures
        r@ == join_with(rendered_errors(errors@), '\n'),
{
    let mut out: Vec<char> = Vec::new();
    let mut i: usize = 0;
    while i < errors.len()
        invariant
            0 <= i <= errors.len(),
            out@ == join_with(rendered_errors(errors@).take(i as int), '\n'),
        decreases errors.len() - i,
    {
        assert(rendered_errors(errors@).take(i as int + 1).drop_last() == rendered_errors(
            errors@,
        ).take(i as int));
        if i > 0 {
            out.push('\n');
        }
        let piece = render_error_chars(&errors[i]);
        append_chars(&mut out, &piece);
        proof {
            if i == 0 {
                assert(out@ =~= render_error(errors@[0]));
            }
        }
        i += 1;
    }
    assert(rendered_errors(errors@).take(errors.len() as int) == rendered_errors(errors@));
    string_from_chars(&out)
}

/// Parses the settings text into rules and validates them as one set: the
/// rules when every line is valid, otherwise the rendered feedback.
pub fn validated_ignore_rules(text: &str) -> (r: Result<Vec<String>, String>)
    ensures
        ({
            let bad = invalid_indices(text_lines(text@));
            bad.len() > 0 ==> (r matches Err(feedback) && exists|errors: Seq<IgnoreValidationError>|
                {
                    &&& errors.len() == bad.len()
                    &&& forall|k: int|
                        0 <= k < bad.len() ==> is_global_line_error(#[trigger] errors[k], bad[k])
                    &&& feedback@ == join_with(rendered_errors(errors), '\n')
                })
        }),
        r matches Ok(rules) ==> string_views(rules@) == text_lines(text@),
        invalid_indices(text_lines(text@)).len() == 0 && gitignore_set_builds(
            "/"@,
            text_lines(text@),
        ) ==> r is Ok,
{
    let rules = ignore_rules_from_text(text);
    match validate_global_patterns(&rules) {
        Ok(_) => Ok(rules),
        Err(errors) => Err(format_ignore_validation_errors(&errors)),
    }
}

} // verus!
