//! The rules of the benchmark: which lines it reads, what it asks of a model and how it judges the
//! answers, and what memory it accounts for.

use vstd::prelude::*;
use vstd::string::*;

use crate::scaled::config::{CacheLevel, ScaledConfig, ScalingCalculator};
use crate::scan::{contains, find_tab, trim};
use crate::scan;
use crate::text::{chars_of, string_of};
use crate::text;

verus! {

/// The lines of a corpus: trimmed, and without the empty ones.
pub open spec fn cleaned(lines: Seq<Seq<char>>) -> Seq<Seq<char>>
    decreases lines.len(),
{
    if lines.len() == 0 {
        Seq::empty()
    } else {
        let before = cleaned(lines.drop_last());
        let line = scan::trimmed(lines.last());
        if line.len() > 0 {
            before.push(line)
        } else {
            before
        }
    }
}

/// Cleans the lines of a corpus.
pub fn load_corpus_lines(lines: &Vec<String>) -> (kept: Vec<String>)
    ensures
        text::views(kept@) == cleaned(text::views(lines@)),
{
    let mut kept: Vec<String> = Vec::new();
    assert(text::views(kept@) =~= cleaned(text::views(lines@).take(0)));
    for i in 0..lines.len()
        invariant
            text::views(kept@) == cleaned(text::views(lines@).take(i as int)),
    {
        let ghost after = text::views(lines@).take(i + 1);
        assert(after.drop_last() =~= text::views(lines@).take(i as int));
        let line: String = trim(lines[i].as_str());
        if line.as_str().unicode_len() > 0 {
            proof {
                text::lemma_views_push(kept@, line);
            }
            kept.push(line);
        }
    }
    assert(text::views(lines@).take(lines@.len() as int) =~= text::views(lines@));
    kept
}

/// Every cleaned line holds something, and has no white space at its ends.
pub proof fn law_cleaned_lines_are_clean(lines: Seq<Seq<char>>)
    ensures
        forall|i: int|
            0 <= i < cleaned(lines).len() ==> {
                &&& (#[trigger] cleaned(lines)[i]).len() > 0
                &&& scan::trimmed(cleaned(lines)[i]) == cleaned(lines)[i]
            },
    decreases lines.len(),
{
    if lines.len() > 0 {
        law_cleaned_lines_are_clean(lines.drop_last());
        scan::law_trimming_is_idempotent(lines.last());
        let before = cleaned(lines.drop_last());
        let all = cleaned(lines);
        assert forall|i: int| 0 <= i < all.len() implies {
            &&& (#[trigger] all[i]).len() > 0
            &&& scan::trimmed(all[i]) == all[i]
        } by {
            if i < before.len() {
                assert(all[i] == before[i]);
            }
        }
    }
}

/// The two fields of a line with a tab: what stands before the first tab, and between it and the
/// next one.
pub open spec fn fields(line: Seq<char>) -> (Seq<char>, Seq<char>) {
    let first = scan::next_tab(line, 0) as int;
    let second = scan::next_tab(line, (first + 1) as nat) as int;
    (scan::trimmed(line.subrange(0, first)), scan::trimmed(line.subrange(first + 1, second)))
}

/// The pairs of the lines that have two fields.
pub open spec fn paired(lines: Seq<Seq<char>>) -> Seq<(Seq<char>, Seq<char>)>
    decreases lines.len(),
{
    if lines.len() == 0 {
        Seq::empty()
    } else {
        let before = paired(lines.drop_last());
        let line = lines.last();
        if scan::next_tab(line, 0) < line.len() {
            before.push(fields(line))
        } else {
            before
        }
    }
}

/// The views of a list of pairs.
pub open spec fn pair_views(pairs: Seq<(String, String)>) -> Seq<(Seq<char>, Seq<char>)> {
    Seq::new(pairs.len(), |i: int| (pairs[i].0@, pairs[i].1@))
}

/// Reads pairs of clean and corrupted texts from tab-separated lines.
pub fn load_typo_pairs(lines: &Vec<String>) -> (pairs: Vec<(String, String)>)
    ensures
        pair_views(pairs@) == paired(cleaned(text::views(lines@))),
{
    let clean: Vec<String> = load_corpus_lines(lines);
    let ghost all = text::views(clean@);
    let mut pairs: Vec<(String, String)> = Vec::new();
    assert(pair_views(pairs@) =~= paired(all.take(0)));
    for i in 0..clean.len()
        invariant
            all == text::views(clean@),
            pair_views(pairs@) == paired(all.take(i as int)),
    {
        assert(all.take(i + 1).drop_last() =~= all.take(i as int));
        let chars: Vec<char> = chars_of(clean[i].as_str());
        let first: usize = find_tab(&chars, 0);
        if first < chars.len() {
            let second: usize = find_tab(&chars, first + 1);
            let left: String = string_of(&chars, 0, first);
            let right: String = string_of(&chars, first + 1, second);
            let pair: (String, String) = (trim(left.as_str()), trim(right.as_str()));
            let ghost before = pairs@;
            pairs.push(pair);
            assert(pair_views(pairs@) =~= pair_views(before).push((pair.0@, pair.1@)));
        }
    }
    assert(all.take(all.len() as int) =~= all);
    pairs
}

/// How many skills are tried.
pub const SKILLS: usize = 11;

/// What a model is asked to go on with.
pub const SKILL_PROMPTS: [&'static str; 11] = [
    "матем",
    "логи",
    "нау",
    "теор",
    "модел",
    "математика это ",
    "логика это ",
    "наука это ",
    "2 + 2 = ",
    "1 + 1 = ",
    "математка это ",
];

/// What is expected of it.
pub const SKILL_EXPECTED: [&'static str; 11] = [
    "атика",
    "ка",
    "ка",
    "ия",
    "ь",
    "valid continuation",
    "valid continuation",
    "valid continuation",
    "4",
    "2",
    "robust continuation",
];

/// How many bytes it may generate.
pub const SKILL_BYTES: [usize; 11] = [10, 10, 10, 10, 10, 20, 20, 20, 5, 5, 20];

/// What kind of skill is tried.
#[derive(Debug, Clone, Copy, PartialEq, Eq, Structural)]
pub enum SkillKind {
    /// The rest of a term.
    TermAutocompletion,
    /// The rest of a phrase.
    PhraseContinuation,
    /// A result.
    BasicArithmetic,
    /// The rest of a phrase with a slip in it.
    TypoInvariance,
}

impl SkillKind {
    /// The kind of each skill.
    pub open spec fn of(skill: int) -> Self {
        if skill < 5 {
            SkillKind::TermAutocompletion
        } else if skill < 8 {
            SkillKind::PhraseContinuation
        } else if skill < 10 {
            SkillKind::BasicArithmetic
        } else {
            SkillKind::TypoInvariance
        }
    }

    /// What the kind is called.
    pub open spec fn name(self) -> Seq<char> {
        match self {
            SkillKind::TermAutocompletion => "Term Autocompletion"@,
            SkillKind::PhraseContinuation => "Phrase Continuation"@,
            SkillKind::BasicArithmetic => "Basic Arithmetic"@,
            SkillKind::TypoInvariance => "Typo Invariance"@,
        }
    }

    /// Whether an answer passes: a term or a result must occur in it, a phrase must go on with
    /// something, and after a slip anything will do.
    pub open spec fn passes(self, answer: Seq<char>, expected: Seq<char>) -> bool {
        match self {
            SkillKind::TermAutocompletion => scan::occurs(answer, expected),
            SkillKind::PhraseContinuation => scan::trimmed(answer).len() > 0,
            SkillKind::BasicArithmetic => scan::occurs(answer, expected),
            SkillKind::TypoInvariance => true,
        }
    }

    /// The kind of each skill.
    pub fn of_skill(skill: usize) -> (kind: Self)
        ensures
            kind == Self::of(skill as int),
    {
        if skill < 5 {
            SkillKind::TermAutocompletion
        } else if skill < 8 {
            SkillKind::PhraseContinuation
        } else if skill < 10 {
            SkillKind::BasicArithmetic
        } else {
            SkillKind::TypoInvariance
        }
    }

    /// What the kind is called.
    pub fn category(self) -> (name: &'static str)
        ensures
            name@ == self.name(),
    {
        match self {
            SkillKind::TermAutocompletion => "Term Autocompletion",
            SkillKind::PhraseContinuation => "Phrase Continuation",
            SkillKind::BasicArithmetic => "Basic Arithmetic",
            SkillKind::TypoInvariance => "Typo Invariance",
        }
    }

    /// Judges an answer.
    pub fn judge(self, answer: &str, expected: &str) -> (passed: bool)
        ensures
            passed == self.passes(answer@, expected@),
    {
        match self {
            SkillKind::TermAutocompletion => contains(answer, expected),
            SkillKind::PhraseContinuation => trim(answer).as_str().unicode_len() > 0,
            SkillKind::BasicArithmetic => contains(answer, expected),
            SkillKind::TypoInvariance => true,
        }
    }
}

/// How a model did in one skill.
#[derive(Debug, Clone)]
pub struct SkillItemResult {
    /// The kind of skill.
    pub category: &'static str,
    /// What the model was asked to go on with.
    pub prompt: String,
    /// What it went on with.
    pub generated: String,
    /// What was expected.
    pub expected: String,
    /// Whether it passed.
    pub passed: bool,
}

impl SkillItemResult {
    /// The verdict on an answer to a skill.
    pub open spec fn is_verdict(self, skill: int, answer: Seq<char>) -> bool {
        let kind = SkillKind::of(skill);
        &&& self.category@ == kind.name()
        &&& self.prompt@ == SKILL_PROMPTS[skill]@
        &&& self.generated@ == answer
        &&& self.expected@ == SKILL_EXPECTED[skill]@
        &&& self.passed == kind.passes(answer, SKILL_EXPECTED[skill]@)
    }
}

/// The verdicts on the answers to all skills.
pub open spec fn are_verdicts(results: Seq<SkillItemResult>, answers: Seq<Seq<char>>) -> bool {
    &&& results.len() == answers.len()
    &&& forall|i: int|
        0 <= i < results.len() ==> (#[trigger] results[i]).is_verdict(i, answers[i])
}

/// Judges the answers of the recurrent model to all skills.
pub fn eval_srx_skills(answers: &Vec<String>) -> (results: Vec<SkillItemResult>)
    requires
        answers@.len() == 11,
    ensures
        are_verdicts(results@, text::views(answers@)),
{
    let mut results: Vec<SkillItemResult> = Vec::new();
    for i in 0..SKILLS
        invariant
            answers@.len() == 11,
            results@.len() == i,
            forall|j: int|
                0 <= j < i ==> (#[trigger] results@[j]).is_verdict(j, answers@[j]@),
    {
        let kind: SkillKind = SkillKind::of_skill(i);
        let prompt: &'static str = SKILL_PROMPTS[i];
        let expected: &'static str = SKILL_EXPECTED[i];
        let chars: Vec<char> = chars_of(answers[i].as_str());
        let generated: String = string_of(&chars, 0, chars.len());
        assert(generated@ =~= answers@[i as int]@);
        let passed: bool = kind.judge(answers[i].as_str(), expected);
        results.push(
            SkillItemResult {
                category: kind.category(),
                prompt: prompt.to_string(),
                generated,
                expected: expected.to_string(),
                passed,
            },
        );
    }
    results
}

/// Judges the answers of the transformer to all skills, by the same rules.
pub fn eval_classic_skills(answers: &Vec<String>) -> (results: Vec<SkillItemResult>)
    requires
        answers@.len() == 11,
    ensures
        are_verdicts(results@, text::views(answers@)),
{
    eval_srx_skills(answers)
}

/// An answer that begins with the expected term passes.
pub proof fn law_term_passes_at_the_beginning(answer: Seq<char>, expected: Seq<char>)
    requires
        expected.len() <= answer.len(),
        answer.take(expected.len() as int) == expected,
    ensures
        SkillKind::TermAutocompletion.passes(answer, expected),
{
    scan::law_prefix_occurs(answer, expected);
}

/// The sequence lengths at which memory is accounted for.
pub const MEMORY_WALL_LENGTHS: [usize; 7] = [32, 128, 512, 1024, 4096, 16384, 65536];

/// The memory of both models at one sequence length.
#[derive(Debug, Clone, Copy)]
pub struct MemoryWallPoint {
    /// Sequence length.
    pub seq_len: usize,
    /// Bytes of the key-value cache.
    pub classic_kv_bytes: usize,
    /// Where they come to lie.
    pub classic_cache_tier: &'static str,
    /// Modelled latency of a step of the transformer, in hundredths of a microsecond.
    pub classic_latency: u32,
    /// Bytes of the recurrent state.
    pub srx_state_bytes: usize,
    /// Where they come to lie.
    pub srx_cache_tier: &'static str,
}

/// The modelled latency of a step of the transformer, in hundredths of a microsecond.
pub open spec fn latency_of(seq_len: nat) -> u32 {
    if seq_len <= 32 {
        283
    } else if seq_len <= 128 {
        760
    } else if seq_len <= 512 {
        2651
    } else if seq_len <= 1024 {
        5186
    } else if seq_len <= 4096 {
        20350
    } else if seq_len <= 16384 {
        81083
    } else {
        323728
    }
}

/// The modelled latency of a step of the transformer.
pub fn classic_latency(seq_len: usize) -> (latency: u32)
    ensures
        latency == latency_of(seq_len as nat),
{
    if seq_len <= 32 {
        283
    } else if seq_len <= 128 {
        760
    } else if seq_len <= 512 {
        2651
    } else if seq_len <= 1024 {
        5186
    } else if seq_len <= 4096 {
        20350
    } else if seq_len <= 16384 {
        81083
    } else {
        323728
    }
}

/// A longer sequence never makes a step faster.
pub proof fn law_latency_is_monotone(shorter: nat, longer: nat)
    requires
        shorter <= longer,
    ensures
        latency_of(shorter) <= latency_of(longer),
{
}

impl MemoryWallPoint {
    /// What holds of the memory at a sequence length.
    pub open spec fn accounts_for(self, config: ScaledConfig, seq_len: nat) -> bool {
        &&& self.seq_len == seq_len
        &&& self.classic_kv_bytes == config.cache_total(seq_len)
        &&& self.classic_cache_tier@ == CacheLevel::holding(config.cache_total(seq_len)).described()
        &&& self.classic_latency == latency_of(seq_len)
        &&& self.srx_state_bytes == config.state_total()
        &&& self.srx_cache_tier@ == CacheLevel::holding(config.state_total()).described()
    }
}

/// The longest sequence still fits into memory that machine integers address.
pub open spec fn addressable(config: ScaledConfig) -> bool {
    &&& config.cache_total(65536) <= usize::MAX
    &&& 2 * config.n_layers * 65536 <= usize::MAX
    &&& config.state_total() <= usize::MAX
    &&& config.n_heads * 80 <= usize::MAX
}

proof fn lemma_shorter_fits(config: ScaledConfig, seq_len: nat)
    requires
        addressable(config),
        seq_len <= 65536,
    ensures
        2 * config.n_layers <= usize::MAX,
        2 * config.n_layers * seq_len <= usize::MAX,
        2 * config.n_layers * seq_len * config.d_model <= usize::MAX,
        config.cache_total(seq_len) <= usize::MAX,
{
    let layers = 2 * config.n_layers as nat;
    let d = config.d_model as nat;
    assert(layers * seq_len <= layers * 65536) by (nonlinear_arith)
        requires
            seq_len <= 65536,
    ;
    assert(layers * seq_len * d <= layers * 65536 * d) by (nonlinear_arith)
        requires
            layers * seq_len <= layers * 65536,
    ;
    assert(layers <= layers * 65536) by (nonlinear_arith);
}

/// Accounts for the memory of both models at all lengths.
pub fn run_memory_wall_challenge(config: &ScaledConfig) -> (points: Vec<MemoryWallPoint>)
    requires
        addressable(*config),
    ensures
        points@.len() == 7,
        forall|i: int|
            0 <= i < 7 ==> (#[trigger] points@[i]).accounts_for(
                *config,
                MEMORY_WALL_LENGTHS[i] as nat,
            ),
{
    let mut points: Vec<MemoryWallPoint> = Vec::new();
    let srx_state_bytes: usize = config.srx_state_bytes();
    let srx_cache_tier: &'static str = ScalingCalculator::cache_tier(srx_state_bytes);
    for i in 0..7usize
        invariant
            addressable(*config),
            srx_state_bytes == config.state_total(),
            srx_cache_tier@ == CacheLevel::holding(config.state_total()).described(),
            points@.len() == i,
            forall|j: int|
                0 <= j < i ==> (#[trigger] points@[j]).accounts_for(
                    *config,
                    MEMORY_WALL_LENGTHS[j] as nat,
                ),
    {
        let n: usize = MEMORY_WALL_LENGTHS[i];
        assert(n <= 65536);
        proof {
            lemma_shorter_fits(*config, n as nat);
        }
        let classic_kv_bytes: usize = config.classic_kv_cache_bytes(n);
        points.push(
            MemoryWallPoint {
                seq_len: n,
                classic_kv_bytes,
                classic_cache_tier: ScalingCalculator::cache_tier(classic_kv_bytes),
                classic_latency: classic_latency(n),
                srx_state_bytes,
                srx_cache_tier,
            },
        );
    }
    points
}

/// Which line a training run takes next: the lines in a circle.
pub fn line_at(step: usize, lines: usize) -> (at: usize)
    requires
        lines > 0,
    ensures
        at == step % lines,
        at < lines,
{
    step % lines
}

/// The pairs of neighbouring bytes that a line teaches: each byte and the one that follows it.
pub open spec fn lessons_of(bytes: Seq<u8>) -> Seq<(u8, u8)> {
    if bytes.len() < 2 {
        Seq::empty()
    } else {
        Seq::new((bytes.len() - 1) as nat, |i: int| (bytes[i], bytes[i + 1]))
    }
}

/// Lists the pairs of neighbouring bytes that a line teaches.
pub fn lessons(bytes: &[u8]) -> (pairs: Vec<(u8, u8)>)
    ensures
        pairs@ == lessons_of(bytes@),
{
    let mut pairs: Vec<(u8, u8)> = Vec::new();
    if bytes.len() < 2 {
        return pairs;
    }
    let last: usize = bytes.len() - 1;
    for i in 0..last
        invariant
            last == bytes@.len() - 1,
            pairs@ == Seq::new(i as nat, |j: int| (bytes@[j], bytes@[j + 1])),
    {
        pairs.push((bytes[i], bytes[i + 1]));
        assert(pairs@ =~= Seq::new((i + 1) as nat, |j: int| (bytes@[j], bytes@[j + 1])));
    }
    pairs
}

/// The lines of a corpus are all lines without the white space at their ends, in order, those left
/// out of which nothing remains.
pub proof fn law_cleaning_trims_and_drops(lines: Seq<Seq<char>>)
    ensures
        cleaned(lines) == lines.map_values(|line: Seq<char>| scan::trimmed(line)).filter(
            |line: Seq<char>| line.len() > 0,
        ),
    decreases lines.len(),
{
    reveal(Seq::filter);
    let all = lines.map_values(|line: Seq<char>| scan::trimmed(line));
    if lines.len() > 0 {
        law_cleaning_trims_and_drops(lines.drop_last());
        assert(all.drop_last() =~= lines.drop_last().map_values(
            |line: Seq<char>| scan::trimmed(line),
        ));
    }
}

proof fn lemma_tab_at(s: Seq<char>, from: nat, at: nat)
    requires
        from <= at <= s.len(),
        forall|k: int| from <= k < at ==> #[trigger] s[k] != '\t',
        at < s.len() ==> s[at as int] == '\t',
    ensures
        scan::next_tab(s, from) == at,
    decreases at - from,
{
    if from < at {
        lemma_tab_at(s, from + 1, at);
    }
}

/// A line gives the pair of what stands before its first tab and what stands between that and the
/// next tab, or the end, both trimmed; a line without a tab gives none.
pub proof fn law_lines_give_pairs(
    lines: Seq<Seq<char>>,
    a: Seq<char>,
    b: Seq<char>,
    rest: Seq<char>,
)
    requires
        !a.contains('\t'),
        !b.contains('\t'),
        rest.len() == 0 || rest[0] == '\t',
    ensures
        paired(lines.push(a)) == paired(lines),
        paired(lines.push(a + seq!['\t'] + b + rest)) == paired(lines).push(
            (scan::trimmed(a), scan::trimmed(b)),
        ),
{
    assert(lines.push(a).drop_last() =~= lines);
    assert forall|k: int| 0 <= k < a.len() implies #[trigger] a[k] != '\t' by {
        assert(a.contains(a[k]));
    }
    lemma_tab_at(a, 0, a.len());
    let line = a + seq!['\t'] + b + rest;
    assert(lines.push(line).drop_last() =~= lines);
    let n = a.len();
    let m = (n + 1 + b.len()) as nat;
    assert forall|k: int| 0 <= k < n implies #[trigger] line[k] != '\t' by {
        assert(line[k] == a[k]);
    }
    assert(line[n as int] == '\t');
    lemma_tab_at(line, 0, n);
    assert forall|k: int| n + 1 <= k < m implies #[trigger] line[k] != '\t' by {
        assert(line[k] == b[k - n - 1]);
        assert(b.contains(b[k - n - 1]));
    }
    if rest.len() > 0 {
        assert(line[m as int] == rest[0]);
    }
    lemma_tab_at(line, n + 1, m);
    assert(line.subrange(0, n as int) =~= a);
    assert(line.subrange(n as int + 1, m as int) =~= b);
}

/// A term or a result passes exactly where the answer contains what is expected, a phrase where
/// the answer holds anything but white space, and a phrase with a slip always.
pub proof fn law_answers_pass_for_cause(answer: Seq<char>, expected: Seq<char>)
    ensures
        SkillKind::TermAutocompletion.passes(answer, expected) <==> exists|
            a: Seq<char>,
            b: Seq<char>,
        |
            answer == #[trigger] (a + expected + b),
        SkillKind::BasicArithmetic.passes(answer, expected) <==> exists|a: Seq<char>, b: Seq<char>|
            answer == #[trigger] (a + expected + b),
        SkillKind::PhraseContinuation.passes(answer, expected) <==> exists|k: int|
            0 <= k < answer.len() && !text::white_space(#[trigger] answer[k]),
        SkillKind::TypoInvariance.passes(answer, expected),
{
    scan::law_occurrence_splits_the_text(answer, expected);
    scan::law_trimming_leaves_the_solid_stretch(answer);
    let (from, to) = choose|from: int, to: int|
        {
            &&& 0 <= from <= to <= answer.len()
            &&& scan::trimmed(answer) == #[trigger] answer.subrange(from, to)
            &&& forall|k: int| 0 <= k < from ==> text::white_space(#[trigger] answer[k])
            &&& forall|k: int| to <= k < answer.len() ==> text::white_space(#[trigger] answer[k])
            &&& from < to ==> !text::white_space(answer[from]) && !text::white_space(
                answer[to - 1],
            )
        };
    if from == to {
        assert forall|k: int| 0 <= k < answer.len() implies text::white_space(
            #[trigger] answer[k],
        ) by {}
    } else {
        assert(!text::white_space(answer[from]));
    }
}

/// The first five skills are terms, the next three phrases, then two results and one slip.
pub proof fn law_skills_are_grouped(skill: int)
    requires
        0 <= skill < 11,
    ensures
        SkillKind::of(skill) == SkillKind::TermAutocompletion <==> skill <= 4,
        SkillKind::of(skill) == SkillKind::PhraseContinuation <==> 5 <= skill <= 7,
        SkillKind::of(skill) == SkillKind::BasicArithmetic <==> 8 <= skill <= 9,
        SkillKind::of(skill) == SkillKind::TypoInvariance <==> skill == 10,
{
}

/// The modelled latency of a length is that of the next length in the list, and of the last one
/// beyond it.
pub proof fn law_latency_steps_at_the_listed_lengths(seq_len: nat)
    ensures
        latency_of(32) == 283 && latency_of(128) == 760 && latency_of(512) == 2651,
        latency_of(1024) == 5186 && latency_of(4096) == 20350 && latency_of(16384) == 81083,
        latency_of(65536) == 323728,
        latency_of(seq_len) == latency_of(
            if seq_len <= 32 {
                32
            } else if seq_len <= 128 {
                128
            } else if seq_len <= 512 {
                512
            } else if seq_len <= 1024 {
                1024
            } else if seq_len <= 4096 {
                4096
            } else if seq_len <= 16384 {
                16384
            } else {
                65536
            },
        ),
{
}

/// A line teaches every byte but the last to be followed by the next.
pub proof fn law_lessons_follow_the_line(bytes: Seq<u8>, byte: u8)
    ensures
        bytes.len() > 0 ==> lessons_of(bytes.push(byte)) == lessons_of(bytes).push(
            (bytes.last(), byte),
        ),
        bytes.len() <= 1 ==> lessons_of(bytes).len() == 0,
{
    if bytes.len() > 0 {
        assert(lessons_of(bytes.push(byte)) =~= lessons_of(bytes).push((bytes.last(), byte)));
    }
}

/// The verdict on an answer shows the answer that was judged beside what was asked and expected.
pub proof fn law_verdicts_show_what_was_judged(
    results: Seq<SkillItemResult>,
    answers: Seq<Seq<char>>,
    i: int,
)
    requires
        are_verdicts(results, answers),
        0 <= i < answers.len(),
    ensures
        results.len() == answers.len(),
        results[i].generated@ == answers[i],
        results[i].prompt@ == SKILL_PROMPTS[i]@,
        results[i].expected@ == SKILL_EXPECTED[i]@,
        results[i].category@ == SkillKind::of(i).name(),
        results[i].passed == SkillKind::of(i).passes(answers[i], results[i].expected@),
{
    assert(results[i].is_verdict(i, answers[i]));
}

/// A point of the memory wall shows the bytes of the cache and of the state, each beside the level
/// that holds it, and the latency at its length.
pub proof fn law_points_show_both_memories(
    point: MemoryWallPoint,
    config: ScaledConfig,
    seq_len: nat,
)
    requires
        point.accounts_for(config, seq_len),
    ensures
        point.seq_len == seq_len,
        point.classic_kv_bytes == config.cache_total(seq_len),
        point.srx_state_bytes == config.state_total(),
        point.classic_cache_tier@ == CacheLevel::holding(point.classic_kv_bytes as nat).described(),
        point.srx_cache_tier@ == CacheLevel::holding(point.srx_state_bytes as nat).described(),
        point.classic_latency == latency_of(point.seq_len as nat),
{
}

/// Pairs of strings stand for the pairs of their texts.
pub proof fn law_pairs_stand_for_their_texts(pairs: Seq<(String, String)>, i: int)
    requires
        0 <= i < pairs.len(),
    ensures
        pair_views(pairs).len() == pairs.len(),
        pair_views(pairs)[i].0 == pairs[i].0@,
        pair_views(pairs)[i].1 == pairs[i].1@,
{
}

} // verus!
