//! The report on training, inference and quality.

use vstd::prelude::*;
use vstd::string::*;

use crate::scan::contains;
use crate::scan;
use crate::text::{chars_of, decimal_string, join_strings};
use crate::text;

verus! {

/// How a model did in one case.
#[derive(Debug, Clone)]
pub struct TestCaseResult {
    /// What the model was asked.
    pub prompt: String,
    /// What it answered.
    pub generated: String,
    /// What was expected.
    pub expected: String,
    /// What the case is about.
    pub category: String,
    /// Whether the answer is what was expected.
    pub passed: bool,
}

/// Judges an answer: it passes where it is what was expected.
pub fn judge_case(prompt: String, generated: String, expected: String, category: String) -> (result:
    TestCaseResult)
    ensures
        result.prompt@ == prompt@,
        result.generated@ == generated@,
        result.expected@ == expected@,
        result.category@ == category@,
        result.passed == (generated@ == expected@),
{
    let passed: bool = generated == expected;
    TestCaseResult { prompt, generated, expected, category, passed }
}

/// The number of cases passed.
pub open spec fn passed_of(cases: Seq<TestCaseResult>) -> nat
    decreases cases.len(),
{
    if cases.len() == 0 {
        0
    } else {
        passed_of(cases.drop_last()) + if cases.last().passed {
            1nat
        } else {
            0nat
        }
    }
}

/// Counts the cases passed from one position to another.
pub fn passed_count(cases: &Vec<TestCaseResult>, from: usize, to: usize) -> (count: usize)
    requires
        from <= to <= cases@.len(),
    ensures
        count == passed_of(cases@.subrange(from as int, to as int)),
        count <= to - from,
{
    let mut count: usize = 0;
    for i in from..to
        invariant
            from <= i <= to <= cases@.len(),
            count == passed_of(cases@.subrange(from as int, i as int)),
            count <= i - from,
    {
        let ghost after = cases@.subrange(from as int, i + 1);
        assert(after.drop_last() =~= cases@.subrange(from as int, i as int));
        assert(after.last() == cases@[i as int]);
        if cases[i].passed {
            count = count + 1;
        }
    }
    count
}

/// All cases pass exactly where as many pass as there are.
pub proof fn law_all_pass(cases: Seq<TestCaseResult>)
    ensures
        passed_of(cases) <= cases.len(),
        passed_of(cases) == cases.len() <==> forall|i: int|
            0 <= i < cases.len() ==> (#[trigger] cases[i]).passed,
    decreases cases.len(),
{
    if cases.len() > 0 {
        let before = cases.drop_last();
        law_all_pass(before);
        if passed_of(cases) == cases.len() {
            assert forall|i: int| 0 <= i < cases.len() implies (#[trigger] cases[i]).passed by {
                if i < before.len() {
                    assert(before[i].passed);
                }
            }
        }
        if forall|i: int| 0 <= i < cases.len() ==> (#[trigger] cases[i]).passed {
            assert forall|i: int| 0 <= i < before.len() implies (#[trigger] before[i]).passed by {
                assert(cases[i].passed);
            }
            assert(cases[cases.len() - 1].passed);
        }
    }
}

/// The cases of two stretches pass as often as those of both together.
pub proof fn law_domains_add_up(first: Seq<TestCaseResult>, second: Seq<TestCaseResult>)
    ensures
        passed_of(first + second) == passed_of(first) + passed_of(second),
    decreases second.len(),
{
    if second.len() == 0 {
        assert(first + second =~= first);
    } else {
        assert((first + second).drop_last() =~= first + second.drop_last());
        assert((first + second).last() == second.last());
        law_domains_add_up(first, second.drop_last());
    }
}

/// No case before this position asks for something.
pub open spec fn none_asking(cases: Seq<TestCaseResult>, part: Seq<char>, before: int) -> bool {
    forall|i: int|
        0 <= i < before ==> !scan::occurs((#[trigger] cases[i]).prompt@, part)
}

/// Whether the first case whose prompt contains something passed; not where there is none.
pub fn first_asking_passed(cases: &Vec<TestCaseResult>, part: &str) -> (passed: bool)
    ensures
        passed <==> exists|i: int|
            0 <= i < cases@.len() && none_asking(cases@, part@, i) && scan::occurs(
                (#[trigger] cases@[i]).prompt@,
                part@,
            ) && cases@[i].passed,
{
    for i in 0..cases.len()
        invariant
            none_asking(cases@, part@, i as int),
    {
        if contains(cases[i].prompt.as_str(), part) {
            proof {
                let first = i as int;
                assert(scan::occurs(cases@[first].prompt@, part@));
                if exists|j: int|
                    0 <= j < cases@.len() && none_asking(cases@, part@, j) && scan::occurs(
                        (#[trigger] cases@[j]).prompt@,
                        part@,
                    ) && cases@[j].passed {
                    let j = choose|j: int|
                        0 <= j < cases@.len() && none_asking(cases@, part@, j) && scan::occurs(
                            (#[trigger] cases@[j]).prompt@,
                            part@,
                        ) && cases@[j].passed;
                    assert(j == first) by {
                        if j < first {
                            assert(!scan::occurs(cases@[j].prompt@, part@));
                        } else if j > first {
                            assert(!scan::occurs(cases@[first].prompt@, part@));
                        }
                    }
                }
            }
            return cases[i].passed;
        }
    }
    false
}

/// The figures of a report. Fractions are texts, rounded already.
#[derive(Debug, Clone)]
pub struct TelemetryFigures {
    /// Number of parameters.
    pub num_params: usize,
    /// Tokens of the data set.
    pub dataset_tokens: usize,
    /// Epochs run.
    pub epochs: usize,
    /// Floating-point operations of training.
    pub total_training_flops: u64,
    /// Optimisation steps taken.
    pub total_steps: usize,
    /// Floating-point operations of one generated token.
    pub flops_per_token: u64,
    /// Tokens decoded in the measurement.
    pub bench_steps: usize,
    /// Millions of operations of training, to two places.
    pub mflops: String,
    /// Billions of operations of training, to four places.
    pub gflops: String,
    /// Milliseconds of training, to two places.
    pub elapsed_ms: String,
    /// Seconds of training, to three places.
    pub elapsed_s: String,
    /// Millions of operations each second, to two places.
    pub mflops_per_sec: String,
    /// Billions of operations each second, to four places.
    pub gflops_per_sec: String,
    /// Loss before training, to four places.
    pub initial_loss: String,
    /// Perplexity before training, to two places.
    pub initial_perplexity: String,
    /// Loss after training, to four places.
    pub final_loss: String,
    /// Perplexity after training, to two places.
    pub final_perplexity: String,
    /// Nanoseconds of a step, to one place.
    pub step_latency_ns: String,
    /// Microseconds of a step, to three places.
    pub step_latency_us: String,
    /// Tokens each second, to no place.
    pub tokens_per_sec: String,
    /// Millions of tokens each second, to two places.
    pub mtokens_per_sec: String,
    /// Billions of operations each second of inference, to four places.
    pub inference_gflops: String,
    /// Percentage of cases passed, to one place.
    pub exact_match_accuracy: String,
}

/// The report on training, inference and quality.
#[derive(Debug, Clone)]
pub struct TelemetryReport {
    /// The figures.
    pub figures: TelemetryFigures,
    /// The cases tried.
    pub test_cases: Vec<TestCaseResult>,
}

/// A text filled up with blanks to a width.
pub open spec fn padded(s: Seq<char>, width: nat) -> Seq<char> {
    if s.len() >= width {
        s
    } else {
        s + Seq::new((width - s.len()) as nat, |i: int| ' ')
    }
}

/// Fills a text up with blanks to a width.
pub fn pad(s: &str, width: usize) -> (filled: String)
    ensures
        filled@ == padded(s@, width as nat),
{
    let mut filled: String = s.to_string();
    let len: usize = chars_of(s).len();
    let mut reached: usize = len;
    while reached < width
        invariant
            len == s@.len(),
            len <= reached,
            reached <= width || reached == len,
            filled@ == s@ + Seq::new((reached - len) as nat, |i: int| ' '),
        decreases width - reached,
    {
        filled.push(' ');
        reached = reached + 1;
        assert(filled@ =~= s@ + Seq::new((reached - len) as nat, |i: int| ' '));
    }
    assert(filled@ =~= padded(s@, width as nat));
    filled
}

/// Appends a text to a list of texts.
fn push_text(parts: &mut Vec<String>, part: &str)
    ensures
        text::views(final(parts)@) == text::views(old(parts)@).push(part@),
{
    let owned: String = part.to_string();
    proof {
        text::lemma_views_push(parts@, owned);
    }
    parts.push(owned);
}

/// Appends a number in decimal notation to a list of texts.
fn push_number(parts: &mut Vec<String>, n: u128)
    ensures
        text::views(final(parts)@) == text::views(old(parts)@).push(text::decimal(n as nat)),
{
    let owned: String = decimal_string(n);
    proof {
        text::lemma_views_push(parts@, owned);
    }
    parts.push(owned);
}

/// The head of the report.
pub open spec fn header_pieces(figures: TelemetryFigures) -> Seq<Seq<char>> {
    seq![
        "================================================================================\n"@,
        " SRXFORMER: CLASSICAL TRANSFORMER (BASELINE) COMPUTE / LATENCY / QUALITY TELEMETRY REPORT\n"@,
        " Target Architecture: Intel Xeon E5-2650 v2 (Ivy Bridge-EP)                     \n"@,
        " Model Parameters:    "@,
        text::decimal(figures.num_params as nat),
        " (100% L1D Cache Resident, 32 KB per core)             \n"@,
        "================================================================================\n\n"@,
    ]
}

fn push_header(parts: &mut Vec<String>, figures: &TelemetryFigures)
    ensures
        text::views(final(parts)@) == text::views(old(parts)@) + header_pieces(*figures),
{
    let ghost before = text::views(parts@);
    push_text(parts, "================================================================================\n");
    push_text(parts, " SRXFORMER: CLASSICAL TRANSFORMER (BASELINE) COMPUTE / LATENCY / QUALITY TELEMETRY REPORT\n");
    push_text(parts, " Target Architecture: Intel Xeon E5-2650 v2 (Ivy Bridge-EP)                     \n");
    push_text(parts, " Model Parameters:    ");
    push_number(parts, figures.num_params as u128);
    push_text(parts, " (100% L1D Cache Resident, 32 KB per core)             \n");
    push_text(parts, "================================================================================\n\n");
    assert(text::views(parts@) =~= before + header_pieces(*figures));
}

/// What training took.
pub open spec fn training_pieces(figures: TelemetryFigures) -> Seq<Seq<char>> {
    seq![
        "[1] ВЛОЖЕННЫЙ COMPUTE НА ОБУЧЕНИЕ (TRAINING COMPUTE):\n    * Вложили compute:          "@,
        text::decimal(figures.total_training_flops as nat),
        " FLOPs ("@,
        figures.mflops@,
        " MFLOPs / "@,
        figures.gflops@,
        " GFLOPs)\n    * Время обучения:           "@,
        figures.elapsed_ms@,
        " ms ("@,
        figures.elapsed_s@,
        " s)\n    * Формула FLOPs:            6 * N_params * tokens_per_epoch * epochs\n                                = 6 * "@,
        text::decimal(figures.num_params as nat),
        " * "@,
        text::decimal(figures.dataset_tokens as nat),
        " * "@,
        text::decimal(figures.epochs as nat),
        "\n    * Эффективная скорость:     "@,
        figures.mflops_per_sec@,
        " MFLOP/s ("@,
        figures.gflops_per_sec@,
        " GFLOP/s)\n"@,
    ]
}

fn push_training(parts: &mut Vec<String>, figures: &TelemetryFigures)
    ensures
        text::views(final(parts)@) == text::views(old(parts)@) + training_pieces(*figures),
{
    let ghost before = text::views(parts@);
    push_text(parts, "[1] ВЛОЖЕННЫЙ COMPUTE НА ОБУЧЕНИЕ (TRAINING COMPUTE):\n    * Вложили compute:          ");
    push_number(parts, figures.total_training_flops as u128);
    push_text(parts, " FLOPs (");
    push_text(parts, figures.mflops.as_str());
    push_text(parts, " MFLOPs / ");
    push_text(parts, figures.gflops.as_str());
    push_text(parts, " GFLOPs)\n    * Время обучения:           ");
    push_text(parts, figures.elapsed_ms.as_str());
    push_text(parts, " ms (");
    push_text(parts, figures.elapsed_s.as_str());
    push_text(parts, " s)\n    * Формула FLOPs:            6 * N_params * tokens_per_epoch * epochs\n                                = 6 * ");
    push_number(parts, figures.num_params as u128);
    push_text(parts, " * ");
    push_number(parts, figures.dataset_tokens as u128);
    push_text(parts, " * ");
    push_number(parts, figures.epochs as u128);
    push_text(parts, "\n    * Эффективная скорость:     ");
    push_text(parts, figures.mflops_per_sec.as_str());
    push_text(parts, " MFLOP/s (");
    push_text(parts, figures.gflops_per_sec.as_str());
    push_text(parts, " GFLOP/s)\n");
    assert(text::views(parts@) =~= before + training_pieces(*figures));
}

/// What training reached.
pub open spec fn losses_pieces(figures: TelemetryFigures) -> Seq<Seq<char>> {
    seq![
        "    * Начальный Loss:           "@,
        figures.initial_loss@,
        " (Перплексия: "@,
        figures.initial_perplexity@,
        ")\n    * Финальный Loss:           "@,
        figures.final_loss@,
        " (Перплексия: "@,
        figures.final_perplexity@,
        ")\n    * Всего шагов (Steps):      "@,
        text::decimal(figures.total_steps as nat),
        " gradient updates\n\n"@,
    ]
}

fn push_losses(parts: &mut Vec<String>, figures: &TelemetryFigures)
    ensures
        text::views(final(parts)@) == text::views(old(parts)@) + losses_pieces(*figures),
{
    let ghost before = text::views(parts@);
    push_text(parts, "    * Начальный Loss:           ");
    push_text(parts, figures.initial_loss.as_str());
    push_text(parts, " (Перплексия: ");
    push_text(parts, figures.initial_perplexity.as_str());
    push_text(parts, ")\n    * Финальный Loss:           ");
    push_text(parts, figures.final_loss.as_str());
    push_text(parts, " (Перплексия: ");
    push_text(parts, figures.final_perplexity.as_str());
    push_text(parts, ")\n    * Всего шагов (Steps):      ");
    push_number(parts, figures.total_steps as u128);
    push_text(parts, " gradient updates\n\n");
    assert(text::views(parts@) =~= before + losses_pieces(*figures));
}

/// What inference takes.
pub open spec fn inference_pieces(figures: TelemetryFigures) -> Seq<Seq<char>> {
    seq![
        "[2] COMPUTE И ЛАТЕНТНОСТЬ НА ИНФЕРЕНСЕ (INFERENCE COMPUTE & LATENCY):\n    * Ответ за compute:         "@,
        text::decimal(figures.flops_per_token as nat),
        " FLOPs на токен (~ 2 * N_params)\n    * Время генерации токена:   "@,
        figures.step_latency_ns@,
        " ns ("@,
        figures.step_latency_us@,
        " µs)\n    * Пропускная способность:   "@,
        figures.tokens_per_sec@,
        " токенов/сек ("@,
        figures.mtokens_per_sec@,
        "M токенов/сек)\n    * Вычислительная скорость:  "@,
        figures.inference_gflops@,
        " GFLOP/s\n    * Число бенчмарк шагов:     "@,
        text::decimal(figures.bench_steps as nat),
        " tokens decoded\n\n"@,
    ]
}

fn push_inference(parts: &mut Vec<String>, figures: &TelemetryFigures)
    ensures
        text::views(final(parts)@) == text::views(old(parts)@) + inference_pieces(*figures),
{
    let ghost before = text::views(parts@);
    push_text(parts, "[2] COMPUTE И ЛАТЕНТНОСТЬ НА ИНФЕРЕНСЕ (INFERENCE COMPUTE & LATENCY):\n    * Ответ за compute:         ");
    push_number(parts, figures.flops_per_token as u128);
    push_text(parts, " FLOPs на токен (~ 2 * N_params)\n    * Время генерации токена:   ");
    push_text(parts, figures.step_latency_ns.as_str());
    push_text(parts, " ns (");
    push_text(parts, figures.step_latency_us.as_str());
    push_text(parts, " µs)\n    * Пропускная способность:   ");
    push_text(parts, figures.tokens_per_sec.as_str());
    push_text(parts, " токенов/сек (");
    push_text(parts, figures.mtokens_per_sec.as_str());
    push_text(parts, "M токенов/сек)\n    * Вычислительная скорость:  ");
    push_text(parts, figures.inference_gflops.as_str());
    push_text(parts, " GFLOP/s\n    * Число бенчмарк шагов:     ");
    push_number(parts, figures.bench_steps as u128);
    push_text(parts, " tokens decoded\n\n");
    assert(text::views(parts@) =~= before + inference_pieces(*figures));
}

/// A row of the table of cases.
pub open spec fn row_pieces(
    category: Seq<char>,
    status: Seq<char>,
    prompt: Seq<char>,
    generated: Seq<char>,
    expected: Seq<char>,
) -> Seq<Seq<char>> {
    seq![
        "    | "@,
        padded(category, 24),
        " | "@,
        padded(status, 6),
        " | "@,
        padded(prompt, 25),
        " | "@,
        padded(generated, 20),
        " | "@,
        padded(expected, 20),
        " |\n"@,
    ]
}

fn push_row(
    parts: &mut Vec<String>,
    category: &str,
    status: &str,
    prompt: &str,
    generated: &str,
    expected: &str,
)
    ensures
        text::views(final(parts)@) == text::views(old(parts)@) + row_pieces(
            category@,
            status@,
            prompt@,
            generated@,
            expected@,
        ),
{
    let ghost before = text::views(parts@);
    push_text(parts, "    | ");
    push_text(parts, pad(category, 24).as_str());
    push_text(parts, " | ");
    push_text(parts, pad(status, 6).as_str());
    push_text(parts, " | ");
    push_text(parts, pad(prompt, 25).as_str());
    push_text(parts, " | ");
    push_text(parts, pad(generated, 20).as_str());
    push_text(parts, " | ");
    push_text(parts, pad(expected, 20).as_str());
    push_text(parts, " |\n");
    assert(text::views(parts@) =~= before + row_pieces(
        category@,
        status@,
        prompt@,
        generated@,
        expected@,
    ));
}

/// How a case is marked.
pub open spec fn status_of(passed: bool) -> Seq<char> {
    if passed {
        "PASS"@
    } else {
        "FAIL"@
    }
}

/// The rows of the cases, in order.
pub open spec fn case_pieces(cases: Seq<TestCaseResult>) -> Seq<Seq<char>>
    decreases cases.len(),
{
    if cases.len() == 0 {
        Seq::empty()
    } else {
        let case = cases.last();
        case_pieces(cases.drop_last()) + row_pieces(
            case.category@,
            status_of(case.passed),
            case.prompt@,
            case.generated@,
            case.expected@,
        )
    }
}

/// What comes before the table of cases.
pub open spec fn quality_pieces(figures: TelemetryFigures, cases: Seq<TestCaseResult>) -> Seq<
    Seq<char>,
> {
    seq![
        "[3] КАЧЕСТВО МОДЕЛИ (QUALITY EVALUATION - EXACT MATCH):\n    * Точность (Exact Match):   "@,
        figures.exact_match_accuracy@,
        "% ("@,
        text::decimal(passed_of(cases)),
        "/"@,
        text::decimal(cases.len()),
        " тестов пройдено)\n"@,
        "    --------------------------------------------------------------------------------------------------------------------\n"@,
    ]
}

/// What ends the report.
pub open spec fn footer_pieces() -> Seq<Seq<char>> {
    seq![
        "    --------------------------------------------------------------------------------------------------------------------\n\n"@,
        "================================================================================\n"@,
        " SRXFORMER TELEMETRY VERIFICATION: ALL METRICS RECORDED SUCCESSFULLY!           \n"@,
        "================================================================================\n"@,
    ]
}

impl TelemetryReport {
    /// The report, piece by piece.
    pub open spec fn pieces(self) -> Seq<Seq<char>> {
        header_pieces(self.figures) + training_pieces(self.figures) + losses_pieces(self.figures)
            + inference_pieces(self.figures) + quality_pieces(self.figures, self.test_cases@)
            + row_pieces(
            "Категория"@,
            "Статус"@,
            "Промпт"@,
            "Сгенерировано"@,
            "Ожидалось"@,
        ) + seq!["    --------------------------------------------------------------------------------------------------------------------\n"@] + case_pieces(self.test_cases@) + footer_pieces()
    }

    /// Writes the report out.
    pub fn format_text(&self) -> (out: String)
        ensures
            out@ == text::join(self.pieces(), ""@),
    {
        let mut parts: Vec<String> = Vec::new();
        let figures: &TelemetryFigures = &self.figures;
        push_header(&mut parts, figures);
        push_training(&mut parts, figures);
        push_losses(&mut parts, figures);
        push_inference(&mut parts, figures);
        push_quality(&mut parts, figures, &self.test_cases);
        push_row(&mut parts, "Категория", "Статус", "Промпт", "Сгенерировано", "Ожидалось");
        push_text(&mut parts, "    --------------------------------------------------------------------------------------------------------------------\n");
        push_cases(&mut parts, &self.test_cases);
        let ghost before = text::views(parts@);
        push_text(&mut parts, "    --------------------------------------------------------------------------------------------------------------------\n\n");
        push_text(&mut parts, "================================================================================\n");
        push_text(
            &mut parts,
            " SRXFORMER TELEMETRY VERIFICATION: ALL METRICS RECORDED SUCCESSFULLY!           \n",
        );
        push_text(&mut parts, "================================================================================\n");
        assert(text::views(parts@) =~= before + footer_pieces());
        assert(text::views(parts@) =~= self.pieces());
        join_strings(&parts, "")
    }
}

fn push_quality(parts: &mut Vec<String>, figures: &TelemetryFigures, cases: &Vec<TestCaseResult>)
    ensures
        text::views(final(parts)@) == text::views(old(parts)@) + quality_pieces(*figures, cases@),
{
    let ghost before = text::views(parts@);
    let passed: usize = passed_count(cases, 0, cases.len());
    assert(cases@.subrange(0, cases@.len() as int) =~= cases@);
    push_text(
        parts,
        "[3] КАЧЕСТВО МОДЕЛИ (QUALITY EVALUATION - EXACT MATCH):\n    * Точность (Exact Match):   ",
    );
    push_text(parts, figures.exact_match_accuracy.as_str());
    push_text(parts, "% (");
    push_number(parts, passed as u128);
    push_text(parts, "/");
    push_number(parts, cases.len() as u128);
    push_text(parts, " тестов пройдено)\n");
    push_text(parts, "    --------------------------------------------------------------------------------------------------------------------\n");
    assert(text::views(parts@) =~= before + quality_pieces(*figures, cases@));
}

fn push_cases(parts: &mut Vec<String>, cases: &Vec<TestCaseResult>)
    ensures
        text::views(final(parts)@) == text::views(old(parts)@) + case_pieces(cases@),
{
    let ghost before = text::views(parts@);
    assert(before + case_pieces(cases@.take(0)) =~= before);
    for i in 0..cases.len()
        invariant
            text::views(parts@) == before + case_pieces(cases@.take(i as int)),
    {
        assert(cases@.take(i + 1).drop_last() =~= cases@.take(i as int));
        let case: &TestCaseResult = &cases[i];
        let status: &str = if case.passed {
            "PASS"
        } else {
            "FAIL"
        };
        push_row(
            parts,
            case.category.as_str(),
            status,
            case.prompt.as_str(),
            case.generated.as_str(),
            case.expected.as_str(),
        );
        assert(text::views(parts@) =~= before + case_pieces(cases@.take(i + 1)));
    }
    assert(cases@.take(cases@.len() as int) =~= cases@);
}

} // verus!
