//! Command-line arguments of the benchmarks.

use vstd::prelude::*;
use vstd::string::*;

use crate::scaled::config::Tier;
use crate::text;

verus! {

/// What an argument asks for.
#[derive(Debug, Clone, Copy, PartialEq, Eq, Structural)]
pub enum ArgKind {
    /// Seconds of training.
    Duration,
    /// Scale of the models.
    Tier,
    /// Seconds between reports.
    CheckpointInterval,
    /// Path of the training corpus.
    TrainPath,
    /// Path of the validation corpus.
    ValPath,
    /// Path of the pairs with slips.
    TypoPath,
    /// The list of arguments.
    Help,
    /// Nothing known.
    Other,
}

impl ArgKind {
    /// What an argument asks for.
    pub open spec fn of(arg: Seq<char>) -> Self {
        if arg == "--duration"@ || arg == "-d"@ {
            ArgKind::Duration
        } else if arg == "--tier"@ || arg == "-t"@ {
            ArgKind::Tier
        } else if arg == "--checkpoint-interval"@ || arg == "-c"@ {
            ArgKind::CheckpointInterval
        } else if arg == "--train-path"@ {
            ArgKind::TrainPath
        } else if arg == "--val-path"@ {
            ArgKind::ValPath
        } else if arg == "--typo-path"@ {
            ArgKind::TypoPath
        } else if arg == "--help"@ || arg == "-h"@ {
            ArgKind::Help
        } else {
            ArgKind::Other
        }
    }

    /// What an argument asks for.
    pub fn of_arg(arg: &String) -> (kind: Self)
        ensures
            kind == Self::of(arg@),
    {
        if is_text(arg, "--duration") || is_text(arg, "-d") {
            ArgKind::Duration
        } else if is_text(arg, "--tier") || is_text(arg, "-t") {
            ArgKind::Tier
        } else if is_text(arg, "--checkpoint-interval") || is_text(arg, "-c") {
            ArgKind::CheckpointInterval
        } else if is_text(arg, "--train-path") {
            ArgKind::TrainPath
        } else if is_text(arg, "--val-path") {
            ArgKind::ValPath
        } else if is_text(arg, "--typo-path") {
            ArgKind::TypoPath
        } else if is_text(arg, "--help") || is_text(arg, "-h") {
            ArgKind::Help
        } else {
            ArgKind::Other
        }
    }
}

/// Whether a string holds a text.
fn is_text(s: &String, expected: &str) -> (same: bool)
    ensures
        same == (s@ == expected@),
{
    *s == expected.to_string()
}

/// Copies a string.
fn copied(s: &String) -> (copy: String)
    ensures
        copy@ == s@,
{
    s.as_str().to_string()
}

/// The tier of a name, whatever its case.
pub open spec fn tier_named(name: Seq<char>) -> Option<Tier> {
    let lowered = text::lowercase(name);
    if lowered == "micro"@ {
        Some(Tier::Micro)
    } else if lowered == "standard"@ {
        Some(Tier::Standard)
    } else if lowered == "pro"@ {
        Some(Tier::Pro)
    } else if lowered == "ultra"@ {
        Some(Tier::Ultra)
    } else {
        None
    }
}

/// The tier of a lower-case name.
pub fn tier_of_lowered(lowered: &String) -> (tier: Option<Tier>)
    ensures
        tier == if lowered@ == "micro"@ {
            Some(Tier::Micro)
        } else if lowered@ == "standard"@ {
            Some(Tier::Standard)
        } else if lowered@ == "pro"@ {
            Some(Tier::Pro)
        } else if lowered@ == "ultra"@ {
            Some(Tier::Ultra)
        } else {
            None
        },
{
    if is_text(lowered, "micro") {
        Some(Tier::Micro)
    } else if is_text(lowered, "standard") {
        Some(Tier::Standard)
    } else if is_text(lowered, "pro") {
        Some(Tier::Pro)
    } else if is_text(lowered, "ultra") {
        Some(Tier::Ultra)
    } else {
        None
    }
}

/// The tier of a name, whatever its case.
pub fn parse_tier(name: &str) -> (tier: Option<Tier>)
    ensures
        tier == tier_named(name@),
{
    let lowered: String = name.to_lowercase();
    tier_of_lowered(&lowered)
}

/// What the arguments of the timed benchmark settle. Texts of numbers are kept as they stand.
#[derive(Debug, Clone)]
pub struct IsoTimeArgs {
    /// Seconds of training, where given.
    pub duration: Option<String>,
    /// Scale of the models.
    pub tier: Tier,
    /// Names of tiers that are not known, in lower case.
    pub unknown_tiers: Vec<String>,
    /// Seconds between reports, where given.
    pub checkpoint_interval: Option<String>,
    /// Path of the training corpus.
    pub train_path: String,
    /// Path of the validation corpus.
    pub val_path: String,
    /// Path of the pairs with slips.
    pub typo_path: String,
}

/// The view of what the arguments settle.
pub struct ArgsView {
    pub duration: Option<Seq<char>>,
    pub tier: Tier,
    pub unknown_tiers: Seq<Seq<char>>,
    pub checkpoint_interval: Option<Seq<char>>,
    pub train_path: Seq<char>,
    pub val_path: Seq<char>,
    pub typo_path: Seq<char>,
}

/// The view of an optional string.
pub open spec fn option_view(s: Option<String>) -> Option<Seq<char>> {
    match s {
        Some(s) => Some(s@),
        None => None,
    }
}

impl View for IsoTimeArgs {
    type V = ArgsView;

    open spec fn view(&self) -> ArgsView {
        ArgsView {
            duration: option_view(self.duration),
            tier: self.tier,
            unknown_tiers: text::views(self.unknown_tiers@),
            checkpoint_interval: option_view(self.checkpoint_interval),
            train_path: self.train_path@,
            val_path: self.val_path@,
            typo_path: self.typo_path@,
        }
    }
}

/// What holds without any argument.
pub open spec fn default_args() -> ArgsView {
    ArgsView {
        duration: None,
        tier: Tier::Standard,
        unknown_tiers: Seq::empty(),
        checkpoint_interval: None,
        train_path: "data/wiki_train.txt"@,
        val_path: "data/wiki_val.txt"@,
        typo_path: "data/wiki_typo_eval.txt"@,
    }
}

/// How the reading of arguments ends.
pub enum ParsedView {
    Run(ArgsView),
    Help,
    MissingDuration,
    MissingTier,
}

/// How the reading of arguments ends.
#[derive(Debug, Clone)]
pub enum ParsedArgs {
    /// With what to run.
    Run(IsoTimeArgs),
    /// With a request for the list of arguments.
    Help,
    /// With a duration that lacks its value.
    MissingDuration,
    /// With a tier that lacks its value.
    MissingTier,
}

impl View for ParsedArgs {
    type V = ParsedView;

    open spec fn view(&self) -> ParsedView {
        match self {
            ParsedArgs::Run(args) => ParsedView::Run(args@),
            ParsedArgs::Help => ParsedView::Help,
            ParsedArgs::MissingDuration => ParsedView::MissingDuration,
            ParsedArgs::MissingTier => ParsedView::MissingTier,
        }
    }
}

/// What an argument and its value settle.
pub open spec fn with_value(settled: ArgsView, kind: ArgKind, value: Seq<char>) -> ArgsView {
    match kind {
        ArgKind::Duration => ArgsView { duration: Some(value), ..settled },
        ArgKind::Tier => match tier_named(value) {
            Some(tier) => ArgsView { tier, ..settled },
            None => ArgsView {
                tier: Tier::Standard,
                unknown_tiers: settled.unknown_tiers.push(text::lowercase(value)),
                ..settled
            },
        },
        ArgKind::CheckpointInterval => ArgsView { checkpoint_interval: Some(value), ..settled },
        ArgKind::TrainPath => ArgsView { train_path: value, ..settled },
        ArgKind::ValPath => ArgsView { val_path: value, ..settled },
        ArgKind::TypoPath => ArgsView { typo_path: value, ..settled },
        ArgKind::Help => settled,
        ArgKind::Other => settled,
    }
}

/// What the arguments from `i` on settle. A known argument takes the next one as its value; the
/// duration and the tier must have one, the others are passed over without; a request for help
/// ends the reading, and what is not known is passed over.
pub open spec fn parsed(args: Seq<Seq<char>>, i: nat, settled: ArgsView) -> ParsedView
    decreases args.len() - i,
{
    if i >= args.len() {
        ParsedView::Run(settled)
    } else {
        let kind = ArgKind::of(args[i as int]);
        if kind == ArgKind::Help {
            ParsedView::Help
        } else if kind == ArgKind::Other {
            parsed(args, i + 1, settled)
        } else if i + 1 < args.len() {
            parsed(args, i + 2, with_value(settled, kind, args[i as int + 1]))
        } else if kind == ArgKind::Duration {
            ParsedView::MissingDuration
        } else if kind == ArgKind::Tier {
            ParsedView::MissingTier
        } else {
            parsed(args, i + 1, settled)
        }
    }
}

/// Settles an argument with its value.
fn settle(settled: IsoTimeArgs, kind: ArgKind, value: &String) -> (after: IsoTimeArgs)
    ensures
        after@ == with_value(settled@, kind, value@),
{
    let mut after: IsoTimeArgs = settled;
    match kind {
        ArgKind::Duration => {
            after.duration = Some(copied(value));
        },
        ArgKind::Tier => {
            let lowered: String = value.as_str().to_lowercase();
            match tier_of_lowered(&lowered) {
                Some(tier) => {
                    after.tier = tier;
                },
                None => {
                    after.tier = Tier::Standard;
                    proof {
                        text::lemma_views_push(after.unknown_tiers@, lowered);
                    }
                    after.unknown_tiers.push(lowered);
                },
            }
        },
        ArgKind::CheckpointInterval => {
            after.checkpoint_interval = Some(copied(value));
        },
        ArgKind::TrainPath => {
            after.train_path = copied(value);
        },
        ArgKind::ValPath => {
            after.val_path = copied(value);
        },
        ArgKind::TypoPath => {
            after.typo_path = copied(value);
        },
        ArgKind::Help => {},
        ArgKind::Other => {},
    }
    after
}

/// Reads the arguments of the timed benchmark; the first one is the name of the program.
pub fn parse_isotime_args(args: &Vec<String>) -> (outcome: ParsedArgs)
    ensures
        outcome@ == parsed(text::views(args@), 1, default_args()),
{
    let mut settled: IsoTimeArgs = IsoTimeArgs {
        duration: None,
        tier: Tier::Standard,
        unknown_tiers: Vec::new(),
        checkpoint_interval: None,
        train_path: "data/wiki_train.txt".to_string(),
        val_path: "data/wiki_val.txt".to_string(),
        typo_path: "data/wiki_typo_eval.txt".to_string(),
    };
    assert(text::views(settled.unknown_tiers@) =~= Seq::empty());
    assert(settled@ == default_args());
    let n: usize = args.len();
    let mut i: usize = 1;
    while i < n
        invariant
            n == args@.len(),
            parsed(text::views(args@), i as nat, settled@) == parsed(
                text::views(args@),
                1,
                default_args(),
            ),
        decreases n - i,
    {
        let kind: ArgKind = ArgKind::of_arg(&args[i]);
        if kind == ArgKind::Help {
            return ParsedArgs::Help;
        }
        if kind == ArgKind::Other {
            i = i + 1;
        } else if n - i > 1 {
            settled = settle(settled, kind, &args[i + 1]);
            i = i + 2;
        } else if kind == ArgKind::Duration {
            return ParsedArgs::MissingDuration;
        } else if kind == ArgKind::Tier {
            return ParsedArgs::MissingTier;
        } else {
            i = i + 1;
        }
    }
    ParsedArgs::Run(settled)
}

/// Without arguments the defaults hold.
pub proof fn law_defaults_without_arguments(args: Seq<Seq<char>>)
    requires
        args.len() <= 1,
    ensures
        parsed(args, 1, default_args()) == ParsedView::Run(default_args()),
{
}

/// Arguments that are not known change nothing.
pub proof fn law_unknown_arguments_are_passed_over(
    args: Seq<Seq<char>>,
    i: nat,
    settled: ArgsView,
)
    requires
        forall|k: int| i <= k < args.len() ==> ArgKind::of(#[trigger] args[k]) == ArgKind::Other,
    ensures
        parsed(args, i, settled) == ParsedView::Run(settled),
    decreases args.len() - i,
{
    if i < args.len() {
        law_unknown_arguments_are_passed_over(args, i + 1, settled);
    }
}

/// The arguments that take a value, each by its long name and, for the first three, a short one.
pub open spec fn asks(arg: Seq<char>, kind: ArgKind) -> bool {
    match kind {
        ArgKind::Duration => arg == "--duration"@ || arg == "-d"@,
        ArgKind::Tier => arg == "--tier"@ || arg == "-t"@,
        ArgKind::CheckpointInterval => arg == "--checkpoint-interval"@ || arg == "-c"@,
        ArgKind::TrainPath => arg == "--train-path"@,
        ArgKind::ValPath => arg == "--val-path"@,
        ArgKind::TypoPath => arg == "--typo-path"@,
        ArgKind::Help => arg == "--help"@ || arg == "-h"@,
        ArgKind::Other => false,
    }
}

#[verifier::spinoff_prover]
#[verifier::rlimit(60)]
proof fn lemma_asked(arg: Seq<char>, kind: ArgKind)
    requires
        asks(arg, kind),
    ensures
        ArgKind::of(arg) == kind,
{
    reveal_strlit("--duration");
    reveal_strlit("-d");
    reveal_strlit("--tier");
    reveal_strlit("-t");
    reveal_strlit("--checkpoint-interval");
    reveal_strlit("-c");
    reveal_strlit("--train-path");
    reveal_strlit("--val-path");
    reveal_strlit("--typo-path");
    reveal_strlit("--help");
    reveal_strlit("-h");
    let d = "--duration"@;
    let t = "--tier"@;
    let c = "--checkpoint-interval"@;
    let tr = "--train-path"@;
    let v = "--val-path"@;
    let ty = "--typo-path"@;
    let h = "--help"@;
    assert(d.len() == 10 && t.len() == 6 && c.len() == 21 && tr.len() == 12 && v.len() == 10
        && ty.len() == 11 && h.len() == 6);
    assert(d[2] != v[2]);
    assert(t[2] != h[2]);
    assert("-d"@[1] != "-t"@[1] && "-d"@[1] != "-c"@[1] && "-d"@[1] != "-h"@[1]);
    assert("-t"@[1] != "-c"@[1] && "-t"@[1] != "-h"@[1] && "-c"@[1] != "-h"@[1]);
}

/// A request for help ends the reading, whatever was settled before and stands behind it.
pub proof fn law_help_is_given(args: Seq<Seq<char>>, i: nat, settled: ArgsView)
    requires
        i < args.len(),
        args[i as int] == "--help"@ || args[i as int] == "-h"@,
    ensures
        parsed(args, i, settled) == ParsedView::Help,
{
    lemma_asked(args[i as int], ArgKind::Help);
}

/// An argument that takes a value settles it by the next one, replaces what was settled before, and
/// leaves everything else; reading goes on behind the value.
pub proof fn law_values_are_taken(args: Seq<Seq<char>>, i: nat, settled: ArgsView, kind: ArgKind)
    requires
        i + 1 < args.len(),
        asks(args[i as int], kind),
        kind != ArgKind::Help,
    ensures
        ({
            let value = args[i as int + 1];
            let after = ArgsView {
                duration: if kind == ArgKind::Duration {
                    Some(value)
                } else {
                    settled.duration
                },
                tier: if kind == ArgKind::Tier {
                    if text::lowercase(value) == "micro"@ {
                        Tier::Micro
                    } else if text::lowercase(value) == "pro"@ {
                        Tier::Pro
                    } else if text::lowercase(value) == "ultra"@ {
                        Tier::Ultra
                    } else {
                        Tier::Standard
                    }
                } else {
                    settled.tier
                },
                unknown_tiers: if kind == ArgKind::Tier && !(text::lowercase(value) == "micro"@
                    || text::lowercase(value) == "standard"@ || text::lowercase(value) == "pro"@
                    || text::lowercase(value) == "ultra"@) {
                    settled.unknown_tiers.push(text::lowercase(value))
                } else {
                    settled.unknown_tiers
                },
                checkpoint_interval: if kind == ArgKind::CheckpointInterval {
                    Some(value)
                } else {
                    settled.checkpoint_interval
                },
                train_path: if kind == ArgKind::TrainPath {
                    value
                } else {
                    settled.train_path
                },
                val_path: if kind == ArgKind::ValPath {
                    value
                } else {
                    settled.val_path
                },
                typo_path: if kind == ArgKind::TypoPath {
                    value
                } else {
                    settled.typo_path
                },
            };
            parsed(args, i, settled) == parsed(args, i + 2, after)
        }),
{
    lemma_asked(args[i as int], kind);
    reveal_strlit("micro");
    reveal_strlit("standard");
    reveal_strlit("pro");
    reveal_strlit("ultra");
    assert("micro"@.len() == 5 && "standard"@.len() == 8 && "pro"@.len() == 3 && "ultra"@.len()
        == 5);
    assert("micro"@[0] != "ultra"@[0]);
}

/// A duration or a tier without a value is reported; any other argument without one is passed over.
pub proof fn law_missing_values(args: Seq<Seq<char>>, i: nat, settled: ArgsView, kind: ArgKind)
    requires
        i + 1 == args.len(),
        asks(args[i as int], kind),
    ensures
        kind == ArgKind::Duration ==> parsed(args, i, settled) == ParsedView::MissingDuration,
        kind == ArgKind::Tier ==> parsed(args, i, settled) == ParsedView::MissingTier,
        kind != ArgKind::Duration && kind != ArgKind::Tier && kind != ArgKind::Help ==> parsed(
            args,
            i,
            settled,
        ) == ParsedView::Run(settled),
{
    lemma_asked(args[i as int], kind);
    reveal_with_fuel(parsed, 2);
}

/// What asks for nothing known is passed over, and behind the last argument what was settled holds.
pub proof fn law_other_arguments(args: Seq<Seq<char>>, i: nat, settled: ArgsView)
    ensures
        i >= args.len() ==> parsed(args, i, settled) == ParsedView::Run(settled),
        i < args.len() && (forall|kind: ArgKind| !#[trigger] asks(args[i as int], kind)) ==> parsed(
            args,
            i,
            settled,
        ) == parsed(args, i + 1, settled),
{
    if i < args.len() {
        let kind = ArgKind::of(args[i as int]);
        if kind != ArgKind::Other {
            assert(asks(args[i as int], kind));
        }
    }
}

/// The arguments that hold are shown one by one.
pub proof fn law_arguments_are_shown(args: IsoTimeArgs)
    ensures
        args.duration is Some <==> args@.duration is Some,
        args.duration matches Some(text) ==> args@.duration == Some(text@),
        args.checkpoint_interval is Some <==> args@.checkpoint_interval is Some,
        args.checkpoint_interval matches Some(text) ==> args@.checkpoint_interval == Some(text@),
        args@.tier == args.tier,
        args@.unknown_tiers == text::views(args.unknown_tiers@),
        args@.train_path == args.train_path@,
        args@.val_path == args.val_path@,
        args@.typo_path == args.typo_path@,
        ParsedArgs::Run(args)@ == ParsedView::Run(args@),
        ParsedArgs::Help@ == ParsedView::Help,
        ParsedArgs::MissingDuration@ == ParsedView::MissingDuration,
        ParsedArgs::MissingTier@ == ParsedView::MissingTier,
{
}

/// Arguments that ask for nothing leave the standard tier, the three files of the data directory, no
/// duration and no interval.
pub proof fn law_nothing_asked_leaves_the_defaults(args: Seq<Seq<char>>, i: nat)
    requires
        forall|j: int, kind: ArgKind| i <= j < args.len() ==> !#[trigger] asks(args[j], kind),
    ensures
        parsed(args, i, default_args()) matches ParsedView::Run(settled) && {
            &&& settled.duration is None
            &&& settled.tier == Tier::Standard
            &&& settled.unknown_tiers.len() == 0
            &&& settled.checkpoint_interval is None
            &&& settled.train_path == "data/wiki_train.txt"@
            &&& settled.val_path == "data/wiki_val.txt"@
            &&& settled.typo_path == "data/wiki_typo_eval.txt"@
        },
    decreases args.len() - i,
{
    if i < args.len() {
        let arg = args[i as int];
        assert(!asks(arg, ArgKind::Duration) && !asks(arg, ArgKind::Tier));
        assert(!asks(arg, ArgKind::CheckpointInterval) && !asks(arg, ArgKind::TrainPath));
        assert(!asks(arg, ArgKind::ValPath) && !asks(arg, ArgKind::TypoPath));
        assert(!asks(arg, ArgKind::Help));
        law_nothing_asked_leaves_the_defaults(args, i + 1);
    }
}

} // verus!
