//! The command that runs the tests, or has them print their artifact
//! manifest: its words, its arguments and its environment.

use crate::names::NameSet;
use crate::text::texts;
use vstd::prelude::*;

verus! {

/// Which packages' tests to run.
#[derive(Clone, Debug)]
pub enum PackageSelection {
    /// Every package of the workspace but those excluded.
    Workspace { exclude: Vec<String> },
    /// The packages listed.
    Crates { crates: Vec<String> },
}

/// The view of a [`PackageSelection`].
pub enum PackagesView {
    Workspace { exclude: Seq<Seq<char>> },
    Crates { crates: Seq<Seq<char>> },
}

impl View for PackageSelection {
    type V = PackagesView;

    open spec fn view(&self) -> PackagesView {
        match self {
            PackageSelection::Workspace { exclude } => PackagesView::Workspace {
                exclude: texts(exclude@),
            },
            PackageSelection::Crates { crates } => PackagesView::Crates { crates: texts(crates@) },
        }
    }
}

/// The profile to build with.
#[derive(Clone, Debug)]
pub enum BuildProfile {
    Debug,
    Release,
    Custom(String),
}

/// The view of a [`BuildProfile`].
pub enum ProfileView {
    Debug,
    Release,
    Custom(Seq<char>),
}

impl View for BuildProfile {
    type V = ProfileView;

    open spec fn view(&self) -> ProfileView {
        match self {
            BuildProfile::Debug => ProfileView::Debug,
            BuildProfile::Release => ProfileView::Release,
            BuildProfile::Custom(s) => ProfileView::Custom(s@),
        }
    }
}

/// The features to enable. The view lists them in ascending order, each once.
#[derive(Clone, Debug)]
pub struct FeatureSelection {
    pub enabled: NameSet,
}

impl View for FeatureSelection {
    type V = Seq<Seq<char>>;

    open spec fn view(&self) -> Seq<Seq<char>> {
        self.enabled.order()
    }
}

/// Where the command runs.
#[derive(Clone, Copy, Debug, PartialEq, Eq, Structural)]
pub enum BackendKind {
    /// On a developer's machine.
    Local,
    /// On a runner of a continuous-integration service.
    Remote,
}

/// The flags that every cargo command of a run shares.
#[derive(Clone, Copy, Debug, PartialEq, Eq, Structural)]
pub struct CommonFlags {
    pub locked: bool,
    pub verbose: bool,
}

/// `flag` before each of the first `n` of `names`.
pub open spec fn flagged(flag: Seq<char>, names: Seq<Seq<char>>, n: int) -> Seq<Seq<char>>
    decreases n,
{
    if n <= 0 {
        Seq::empty()
    } else {
        flagged(flag, names, n - 1) + seq![flag, names[n - 1]]
    }
}

/// The first `n` of `names`, with a comma between each two.
pub open spec fn comma_joined(names: Seq<Seq<char>>, n: int) -> Seq<char>
    decreases n,
{
    if n <= 0 {
        Seq::empty()
    } else if n == 1 {
        names[0]
    } else {
        comma_joined(names, n - 1) + ","@ + names[n - 1]
    }
}

/// The arguments that select the packages.
pub open spec fn package_tokens(packages: PackagesView) -> Seq<Seq<char>> {
    match packages {
        PackagesView::Workspace { exclude } => seq!["--workspace"@] + flagged(
            "--exclude"@,
            exclude,
            exclude.len() as int,
        ),
        PackagesView::Crates { crates } => flagged("-p"@, crates, crates.len() as int),
    }
}

/// The arguments that enable the features: none where none is enabled.
pub open spec fn feature_tokens(features: Seq<Seq<char>>) -> Seq<Seq<char>> {
    if features.len() == 0 {
        Seq::empty()
    } else {
        seq!["--features"@, comma_joined(features, features.len() as int)]
    }
}

/// The name that cargo knows the profile by.
pub open spec fn profile_name(profile: ProfileView) -> Seq<char> {
    match profile {
        ProfileView::Debug => "dev"@,
        ProfileView::Release => "release"@,
        ProfileView::Custom(s) => s,
    }
}

/// The arguments that the common flags stand for: `--locked`, then
/// `--verbose`, each where it is set.
pub open spec fn flag_tokens(flags: CommonFlags) -> Seq<Seq<char>> {
    (if flags.locked {
        seq!["--locked"@]
    } else {
        Seq::empty()
    }) + (if flags.verbose {
        seq!["--verbose"@]
    } else {
        Seq::empty()
    })
}

/// The arguments handed through to the test binary, behind a `--`.
pub open spec fn extra_tokens(extra: Option<Seq<Seq<char>>>) -> Seq<Seq<char>> {
    match extra {
        Some(args) => seq!["--"@] + args,
        None => Seq::empty(),
    }
}

/// The arguments of a test run, in order: the common flags; `--tests` and
/// `--bins`, which keep benchmarks out; the package selection; the features;
/// the target; the profile; and the arguments for the test binary.
pub open spec fn test_tokens(
    flags: CommonFlags,
    packages: PackagesView,
    features: Seq<Seq<char>>,
    target: Seq<char>,
    profile: ProfileView,
    extra: Option<Seq<Seq<char>>>,
) -> Seq<Seq<char>> {
    flag_tokens(flags) + seq!["--tests"@, "--bins"@] + package_tokens(packages) + feature_tokens(
        features,
    ) + seq!["--target"@, target] + seq!["--profile"@, profile_name(profile)] + extra_tokens(
        extra,
    )
}

/// The view of optional extra arguments.
pub open spec fn extra_view(extra: Option<Vec<String>>) -> Option<Seq<Seq<char>>> {
    match extra {
        Some(args) => Some(texts(args@)),
        None => None,
    }
}

/// Appends the strings of `more` to `args`.
fn extend(args: &mut Vec<String>, more: Vec<String>)
    ensures
        texts(final(args)@) == texts(old(args)@) + texts(more@),
{
    let mut more = more;
    let ghost before = args@;
    let ghost added = more@;
    args.append(&mut more);
    assert(texts(args@) =~= texts(before) + texts(added));
}

/// Appends `word` to `args`.
fn push_word(args: &mut Vec<String>, word: &str)
    ensures
        texts(final(args)@) == texts(old(args)@).push(word@),
{
    let ghost before = args@;
    args.push(String::from_str(word));
    assert(texts(args@) =~= texts(before).push(word@));
}

/// `flag` before each of `names`.
fn flagged_words(flag: &str, names: &Vec<String>) -> (r: Vec<String>)
    ensures
        texts(r@) == flagged(flag@, texts(names@), names@.len() as int),
{
    let mut r: Vec<String> = Vec::new();
    let mut i: usize = 0;
    assert(texts(r@) =~= Seq::<Seq<char>>::empty());
    while i < names.len()
        invariant
            i <= names.len(),
            texts(r@) == flagged(flag@, texts(names@), i as int),
        decreases names.len() - i,
    {
        let ghost before = texts(r@);
        push_word(&mut r, flag);
        push_word(&mut r, names[i].as_str());
        proof {
            assert(texts(names@)[i as int] == names@[i as int]@);
            assert(texts(r@) =~= before + seq![flag@, names@[i as int]@]);
        }
        i += 1;
    }
    r
}

impl PackageSelection {
    /// The arguments that select the packages.
    pub fn tokens(&self) -> (r: Vec<String>)
        ensures
            texts(r@) == package_tokens(self@),
    {
        match self {
            PackageSelection::Workspace { exclude } => {
                let mut r: Vec<String> = Vec::new();
                assert(texts(r@) =~= Seq::<Seq<char>>::empty());
                push_word(&mut r, "--workspace");
                extend(&mut r, flagged_words("--exclude", exclude));
                assert(texts(r@) =~= package_tokens(self@));
                r
            },
            PackageSelection::Crates { crates } => flagged_words("-p", crates),
        }
    }
}

impl BuildProfile {
    /// The name that cargo knows the profile by.
    pub fn name(&self) -> (r: String)
        ensures
            r@ == profile_name(self@),
    {
        match self {
            BuildProfile::Debug => String::from_str("dev"),
            BuildProfile::Release => String::from_str("release"),
            BuildProfile::Custom(s) => s.clone(),
        }
    }
}

impl FeatureSelection {
    /// No feature enabled.
    pub fn none() -> (r: FeatureSelection)
        ensures
            r@ == Seq::<Seq<char>>::empty(),
    {
        FeatureSelection { enabled: NameSet::new() }
    }

    /// The arguments that enable the features.
    pub fn tokens(&self) -> (r: Vec<String>)
        ensures
            texts(r@) == feature_tokens(self@),
    {
        let n = self.enabled.len();
        let mut r: Vec<String> = Vec::new();
        assert(texts(r@) =~= Seq::<Seq<char>>::empty());
        if n == 0 {
            return r;
        }
        let mut list = self.enabled.get(0).clone();
        let mut i: usize = 1;
        while i < n
            invariant
                1 <= i <= n,
                n == self.enabled.order().len(),
                list@ == comma_joined(self.enabled.order(), i as int),
            decreases n - i,
        {
            list.append(",");
            list.append(self.enabled.get(i).as_str());
            i += 1;
        }
        push_word(&mut r, "--features");
        push_word(&mut r, list.as_str());
        assert(texts(r@) =~= feature_tokens(self@));
        r
    }
}

impl CommonFlags {
    /// The arguments that the flags stand for.
    pub fn tokens(&self) -> (r: Vec<String>)
        ensures
            texts(r@) == flag_tokens(*self),
    {
        let mut r: Vec<String> = Vec::new();
        assert(texts(r@) =~= Seq::<Seq<char>>::empty());
        if self.locked {
            push_word(&mut r, "--locked");
        }
        if self.verbose {
            push_word(&mut r, "--verbose");
        }
        assert(texts(r@) =~= flag_tokens(*self));
        r
    }
}

/// The arguments of a test run for the target named `target`.
pub fn test_arguments(
    flags: CommonFlags,
    packages: &PackageSelection,
    features: &FeatureSelection,
    target: &str,
    profile: &BuildProfile,
    extra_args: &Option<Vec<String>>,
) -> (args: Vec<String>)
    ensures
        texts(args@) == test_tokens(
            flags,
            packages@,
            features@,
            target@,
            profile@,
            extra_view(*extra_args),
        ),
{
    let mut args = flags.tokens();
    push_word(&mut args, "--tests");
    push_word(&mut args, "--bins");
    extend(&mut args, packages.tokens());
    extend(&mut args, features.tokens());
    push_word(&mut args, "--target");
    push_word(&mut args, target);
    push_word(&mut args, "--profile");
    push_word(&mut args, profile.name().as_str());
    let ghost before = texts(args@);
    match extra_args {
        Some(extra) => {
            push_word(&mut args, "--");
            let mut i: usize = 0;
            while i < extra.len()
                invariant
                    i <= extra.len(),
                    texts(args@) == before + seq!["--"@] + texts(extra@).take(i as int),
                decreases extra.len() - i,
            {
                let ghost so_far = texts(args@);
                push_word(&mut args, extra[i].as_str());
                proof {
                    assert(texts(extra@)[i as int] == extra@[i as int]@);
                    assert(texts(extra@).take(i + 1) =~= texts(extra@).take(i as int).push(
                        extra@[i as int]@,
                    ));
                    assert(texts(args@) =~= before + seq!["--"@] + texts(extra@).take(i + 1));
                }
                i += 1;
            }
            proof {
                assert(texts(extra@).take(i as int) =~= texts(extra@));
                assert(before + seq!["--"@] + texts(extra@) =~= before + (seq!["--"@] + texts(
                    extra@,
                )));
            }
        },
        None => {
            assert(before + Seq::<Seq<char>>::empty() =~= before);
        },
    }
    assert(before =~= flag_tokens(flags) + seq!["--tests"@, "--bins"@] + package_tokens(packages@)
        + feature_tokens(features@) + seq!["--target"@, target@] + seq![
        "--profile"@,
        profile_name(profile@),
    ]);
    args
}

/// `target_lexicon::Triple`, taken as opaque: only its name is read.
#[verifier::external_type_specification]
#[verifier::external_body]
pub struct ExTriple(target_lexicon::Triple);

/// The text that `target_lexicon::Triple` displays: the name of the target.
pub uninterp spec fn triple_text(target: target_lexicon::Triple) -> Seq<char>;

/// Formats a `target_lexicon::Triple` with its `Display`. Nothing is claimed
/// of the result but that it is what [`triple_text`] names.
#[verifier::external_body]
fn triple_name(target: &target_lexicon::Triple) -> (r: String)
    ensures
        r@ == triple_text(*target),
{
    target.to_string()
}

/// `Triple`'s `Clone`: the copy is the same target.
pub assume_specification[ <target_lexicon::Triple as Clone>::clone ](
    target: &target_lexicon::Triple,
) -> (r: target_lexicon::Triple)
    ensures
        r == *target,
;

/// A request to run the tests of some packages for a target.
#[derive(Clone, Debug)]
pub struct TestRequest {
    pub packages: PackageSelection,
    pub profile: BuildProfile,
    pub features: FeatureSelection,
    pub target: target_lexicon::Triple,
    /// Arguments for the test binary itself.
    pub extra_args: Option<Vec<String>>,
}

/// The view of a [`TestRequest`]: the target stands as its name.
pub struct TestRequestView {
    pub packages: PackagesView,
    pub profile: ProfileView,
    pub features: Seq<Seq<char>>,
    pub target: Seq<char>,
    pub extra_args: Option<Seq<Seq<char>>>,
}

impl View for TestRequest {
    type V = TestRequestView;

    open spec fn view(&self) -> TestRequestView {
        TestRequestView {
            packages: self.packages@,
            profile: self.profile@,
            features: self.features@,
            target: triple_text(self.target),
            extra_args: extra_view(self.extra_args),
        }
    }
}

/// The arguments of the run that `request` asks for.
pub open spec fn request_tokens(flags: CommonFlags, request: TestRequestView) -> Seq<Seq<char>> {
    test_tokens(
        flags,
        request.packages,
        request.features,
        request.target,
        request.profile,
        request.extra_args,
    )
}

/// The words of the command: cargo's `test`, run through `rustup` where a
/// toolchain is named.
pub open spec fn program_words(toolchain: Option<Seq<char>>) -> Seq<Seq<char>> {
    match toolchain {
        Some(name) => seq!["rustup"@, "run"@, name, "cargo"@, "test"@],
        None => seq!["cargo"@, "test"@],
    }
}

/// The environment overrides of the command. Away from a developer's machine
/// incremental compilation is switched off; on it nothing is overridden.
pub open spec fn environment(backend: BackendKind) -> Seq<(Seq<char>, Seq<char>)> {
    match backend {
        BackendKind::Local => Seq::empty(),
        BackendKind::Remote => seq![("CARGO_INCREMENTAL"@, "0"@)],
    }
}

/// A command, ready to be run: its words, its arguments, and the environment
/// variables to set for it.
#[derive(Clone, Debug)]
pub struct Invocation {
    pub program: Vec<String>,
    pub args: Vec<String>,
    pub env: Vec<(String, String)>,
}

/// The view of an [`Invocation`].
pub struct InvocationView {
    pub program: Seq<Seq<char>>,
    pub args: Seq<Seq<char>>,
    pub env: Seq<(Seq<char>, Seq<char>)>,
}

impl View for Invocation {
    type V = InvocationView;

    open spec fn view(&self) -> InvocationView {
        InvocationView {
            program: texts(self.program@),
            args: texts(self.args@),
            env: self.env@.map_values(|p: (String, String)| (p.0@, p.1@)),
        }
    }
}

/// The view of an optional toolchain name.
pub open spec fn toolchain_view(toolchain: Option<String>) -> Option<Seq<char>> {
    match toolchain {
        Some(name) => Some(name@),
        None => None,
    }
}

/// The words of the command.
pub fn program(toolchain: &Option<String>) -> (r: Vec<String>)
    ensures
        texts(r@) == program_words(toolchain_view(*toolchain)),
{
    let mut r: Vec<String> = Vec::new();
    assert(texts(r@) =~= Seq::<Seq<char>>::empty());
    match toolchain {
        Some(name) => {
            push_word(&mut r, "rustup");
            push_word(&mut r, "run");
            push_word(&mut r, name.as_str());
            push_word(&mut r, "cargo");
            push_word(&mut r, "test");
        },
        None => {
            push_word(&mut r, "cargo");
            push_word(&mut r, "test");
        },
    }
    assert(texts(r@) =~= program_words(toolchain_view(*toolchain)));
    r
}

/// The environment overrides of a command that runs on `backend`.
pub fn environment_for(backend: BackendKind) -> (r: Vec<(String, String)>)
    ensures
        r@.map_values(|p: (String, String)| (p.0@, p.1@)) == environment(backend),
{
    let mut r: Vec<(String, String)> = Vec::new();
    match backend {
        BackendKind::Local => {},
        BackendKind::Remote => {
            r.push((String::from_str("CARGO_INCREMENTAL"), String::from_str("0")));
        },
    }
    assert(r@.map_values(|p: (String, String)| (p.0@, p.1@)) =~= environment(backend));
    r
}

impl TestRequest {
    /// The arguments of the run that this request asks for.
    pub fn arguments(&self, flags: CommonFlags) -> (args: Vec<String>)
        ensures
            texts(args@) == request_tokens(flags, self@),
    {
        let target = triple_name(&self.target);
        test_arguments(
            flags,
            &self.packages,
            &self.features,
            target.as_str(),
            &self.profile,
            &self.extra_args,
        )
    }

    /// The command that runs this request.
    pub fn invocation(
        &self,
        flags: CommonFlags,
        toolchain: &Option<String>,
        backend: BackendKind,
    ) -> (r: Invocation)
        ensures
            r@ == (InvocationView {
                program: program_words(toolchain_view(*toolchain)),
                args: request_tokens(flags, self@),
                env: environment(backend),
            }),
    {
        Invocation {
            program: program(toolchain),
            args: self.arguments(flags),
            env: environment_for(backend),
        }
    }

    /// The request that has the tests of `vmm_tests` print their artifact
    /// manifest instead of running: no features, the release profile where
    /// `release` is set and the debug profile where it is not.
    pub fn for_manifest(target: &target_lexicon::Triple, release: bool) -> (r: TestRequest)
        ensures
            r@ == (TestRequestView {
                packages: PackagesView::Crates { crates: seq!["vmm_tests"@] },
                profile: if release {
                    ProfileView::Release
                } else {
                    ProfileView::Debug
                },
                features: Seq::empty(),
                target: triple_text(*target),
                extra_args: Some(seq!["--list-required-artifacts=json"@]),
            }),
    {
        let mut crates: Vec<String> = Vec::new();
        crates.push(String::from_str("vmm_tests"));
        let mut extra: Vec<String> = Vec::new();
        extra.push(String::from_str("--list-required-artifacts=json"));
        assert(texts(crates@) =~= seq!["vmm_tests"@]);
        assert(texts(extra@) =~= seq!["--list-required-artifacts=json"@]);
        TestRequest {
            packages: PackageSelection::Crates { crates },
            profile: if release {
                BuildProfile::Release
            } else {
                BuildProfile::Debug
            },
            features: FeatureSelection::none(),
            target: target.clone(),
            extra_args: Some(extra),
        }
    }
}

/// A request to list the tests of a test archive that a filter selects.
#[derive(Clone, Debug)]
pub struct ListRequest {
    pub archive_file: String,
    pub target: target_lexicon::Triple,
    pub nextest_bin: String,
    pub working_dir: String,
    pub config_file: String,
    pub nextest_profile: String,
    pub filter_expr: Option<String>,
    /// Whether tests marked as ignored are listed too.
    pub run_ignored: bool,
    pub output_dir: String,
}

impl ListRequest {
    /// The request that lists what `filter_expr` selects: tests marked as
    /// ignored stay out.
    pub fn for_filter(
        archive_file: String,
        target: &target_lexicon::Triple,
        nextest_bin: String,
        working_dir: String,
        config_file: String,
        nextest_profile: String,
        filter_expr: String,
        output_dir: String,
    ) -> (r: ListRequest)
        ensures
            r.archive_file == archive_file,
            r.target == *target,
            r.nextest_bin == nextest_bin,
            r.working_dir == working_dir,
            r.config_file == config_file,
            r.nextest_profile == nextest_profile,
            r.filter_expr == Some(filter_expr),
            !r.run_ignored,
            r.output_dir == output_dir,
    {
        ListRequest {
            archive_file,
            target: target.clone(),
            nextest_bin,
            working_dir,
            config_file,
            nextest_profile,
            filter_expr: Some(filter_expr),
            run_ignored: false,
            output_dir,
        }
    }
}

} // verus!
