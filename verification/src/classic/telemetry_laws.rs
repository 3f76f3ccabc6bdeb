//! What a report shows, whatever stands around it.

use vstd::prelude::*;

use crate::classic::telemetry::{TelemetryFigures, TelemetryReport, TestCaseResult};
use crate::classic::telemetry;
use crate::scan;
use crate::text;

verus! {

/// The number of cases passed is the number of those that are marked as passed.
pub proof fn law_passed_cases_are_counted(cases: Seq<TestCaseResult>)
    ensures
        telemetry::passed_of(cases) == cases.filter(|case: TestCaseResult| case.passed).len(),
    decreases cases.len(),
{
    reveal(Seq::filter);
    if cases.len() > 0 {
        law_passed_cases_are_counted(cases.drop_last());
    }
}

/// A padded text begins with the text, goes on with blanks only, and is as wide as asked for, or as
/// the text where that is wider.
pub proof fn law_padding_adds_blanks(s: Seq<char>, width: nat)
    ensures
        s.is_prefix_of(telemetry::padded(s, width)),
        forall|i: int|
            s.len() <= i < telemetry::padded(s, width).len() ==> #[trigger] telemetry::padded(
                s,
                width,
            )[i] == ' ',
        telemetry::padded(s, width).len() == if s.len() < width {
            width
        } else {
            s.len()
        },
{
}

/// The parts of a report in one text.
pub open spec fn report_text(report: TelemetryReport) -> Seq<char> {
    text::join(report.pieces(), ""@)
}

/// A text shows a figure behind its label.
pub open spec fn shows(s: Seq<char>, label: Seq<char>, figure: Seq<char>) -> bool {
    exists|a: Seq<char>, b: Seq<char>| s == #[trigger] (a + (label + figure) + b)
}

proof fn lemma_join_flat(p: Seq<Seq<char>>)
    ensures
        text::join(p, ""@) == p.flatten(),
    decreases p.len(),
{
    reveal_strlit("");
    assert(""@ =~= Seq::<char>::empty());
    if p.len() == 0 {
        assert(p.flatten() =~= Seq::<char>::empty());
    } else {
        let front = p.drop_last();
        assert(p =~= front.push(p.last()));
        front.lemma_flatten_push(p.last());
        lemma_join_flat(front);
        if p.len() == 1 {
            assert(front.flatten() =~= Seq::<char>::empty());
            assert(p.flatten() =~= p[0]);
        } else {
            assert(text::join(p, ""@) =~= front.flatten() + p.last());
        }
    }
}

/// Neighbouring parts of a text stand in it one behind the other.
proof fn lemma_parts_shown(p: Seq<Seq<char>>, i: int, n: int)
    requires
        0 <= i,
        0 <= n,
        i + n <= p.len(),
    ensures
        p.flatten() == p.take(i).flatten() + p.subrange(i, i + n).flatten() + p.skip(
            i + n,
        ).flatten(),
{
    let a = p.take(i);
    let b = p.subrange(i, i + n);
    let c = p.skip(i + n);
    assert(p =~= a + b + c);
    vstd::seq_lib::lemma_flatten_concat(a + b, c);
    vstd::seq_lib::lemma_flatten_concat(a, b);
}

proof fn lemma_pair_shown(p: Seq<Seq<char>>, i: int)
    requires
        0 <= i,
        i + 2 <= p.len(),
    ensures
        shows(text::join(p, ""@), p[i], p[i + 1]),
{
    lemma_join_flat(p);
    lemma_parts_shown(p, i, 2);
    let two = p.subrange(i, i + 2);
    assert(two =~= seq![p[i]].push(p[i + 1]));
    seq![p[i]].lemma_flatten_push(p[i + 1]);
    seq![p[i]].lemma_flatten_one_element();
    assert(p.take(i).flatten() + (p[i] + p[i + 1]) + p.skip(i + 2).flatten() == p.flatten());
}

proof fn lemma_training_shown(p: Seq<Seq<char>>, o: int, figures: TelemetryFigures)
    requires
        0 <= o,
        o + 21 <= p.len(),
        p.subrange(o, o + 21) == telemetry::training_pieces(figures),
    ensures
        forall|k: int|
            0 <= k < 20 ==> #[trigger] telemetry::training_pieces(figures)[k] == p[o + k] && shows(
                text::join(p, ""@),
                p[o + k],
                p[o + k + 1],
            ),
{
    let part = telemetry::training_pieces(figures);
    assert forall|k: int| 0 <= k < 20 implies #[trigger] part[k] == p[o + k] && shows(
        text::join(p, ""@),
        p[o + k],
        p[o + k + 1],
    ) by {
        assert(p.subrange(o, o + 21)[k] == p[o + k]);
        lemma_pair_shown(p, o + k);
    }
}

/// The report shows what training took: each figure stands behind its label.
#[verifier::rlimit(40)]
pub proof fn law_report_shows_training(report: TelemetryReport)
    ensures
        shows(
            report_text(report),
            " Model Parameters:    "@,
            text::decimal(report.figures.num_params as nat),
        ),
        shows(
            report_text(report),
            "[1] ВЛОЖЕННЫЙ COMPUTE НА ОБУЧЕНИЕ (TRAINING COMPUTE):\n    * Вложили compute:          "@,
            text::decimal(report.figures.total_training_flops as nat),
        ),
        shows(report_text(report), " FLOPs ("@, report.figures.mflops@),
        shows(report_text(report), " MFLOPs / "@, report.figures.gflops@),
        shows(
            report_text(report),
            " GFLOPs)\n    * Время обучения:           "@,
            report.figures.elapsed_ms@,
        ),
        shows(report_text(report), " ms ("@, report.figures.elapsed_s@),
        shows(
            report_text(report),
            "\n    * Эффективная скорость:     "@,
            report.figures.mflops_per_sec@,
        ),
        shows(report_text(report), " MFLOP/s ("@, report.figures.gflops_per_sec@),
{
    let p = report.pieces();
    let f = report.figures;
    assert(p[3] == " Model Parameters:    "@);
    assert(p[4] == text::decimal(f.num_params as nat));
    lemma_pair_shown(p, 3);
    let part = telemetry::training_pieces(f);
    assert(p.subrange(7, 28) =~= part);
    lemma_training_shown(p, 7, f);
    assert(part[0] == p[7] && part[1] == p[8]);
    assert(part[2] == p[9] && part[3] == p[10]);
    assert(part[4] == p[11] && part[5] == p[12]);
    assert(part[6] == p[13] && part[7] == p[14]);
    assert(part[8] == p[15] && part[9] == p[16]);
    assert(part[16] == p[23] && part[17] == p[24]);
    assert(part[18] == p[25] && part[19] == p[26]);
}

proof fn lemma_losses_place(report: TelemetryReport)
    ensures
        report.pieces().len() >= 65,
        report.pieces().subrange(28, 39) == telemetry::losses_pieces(report.figures),
        report.pieces().subrange(39, 54) == telemetry::inference_pieces(report.figures),
        report.pieces().subrange(54, 62) == telemetry::quality_pieces(
            report.figures,
            report.test_cases@,
        ),
{
    let p = report.pieces();
    assert(p.subrange(28, 39) =~= telemetry::losses_pieces(report.figures));
    assert(p.subrange(39, 54) =~= telemetry::inference_pieces(report.figures));
    assert(p.subrange(54, 62) =~= telemetry::quality_pieces(report.figures, report.test_cases@));
}

/// The report shows what training reached: the loss and the perplexity before it, and those after.
pub proof fn law_report_shows_losses(report: TelemetryReport)
    ensures
        shows(
            report_text(report),
            "    * Начальный Loss:           "@,
            report.figures.initial_loss@ + " (Перплексия: "@ + report.figures.initial_perplexity@,
        ),
        shows(
            report_text(report),
            ")\n    * Финальный Loss:           "@,
            report.figures.final_loss@ + " (Перплексия: "@ + report.figures.final_perplexity@,
        ),
        shows(
            report_text(report),
            ")\n    * Всего шагов (Steps):      "@,
            text::decimal(report.figures.total_steps as nat),
        ),
{
    let p = report.pieces();
    lemma_losses_place(report);
    let part = telemetry::losses_pieces(report.figures);
    assert forall|k: int| 0 <= k < 11 implies #[trigger] part[k] == p[28 + k] by {
        assert(p.subrange(28, 39)[k] == p[28 + k]);
    }
    assert(part[0] == p[28] && part[1] == p[29] && part[2] == p[30] && part[3] == p[31]);
    assert(part[4] == p[32] && part[5] == p[33] && part[6] == p[34] && part[7] == p[35]);
    assert(part[8] == p[36] && part[9] == p[37]);
    lemma_four_shown(p, 28);
    lemma_four_shown(p, 32);
    lemma_pair_shown(p, 36);
}

proof fn lemma_four_shown(p: Seq<Seq<char>>, i: int)
    requires
        0 <= i,
        i + 4 <= p.len(),
    ensures
        shows(text::join(p, ""@), p[i], p[i + 1] + p[i + 2] + p[i + 3]),
{
    lemma_join_flat(p);
    lemma_parts_shown(p, i, 4);
    let four = p.subrange(i, i + 4);
    let one = seq![p[i]];
    let two = one.push(p[i + 1]);
    let three = two.push(p[i + 2]);
    assert(four =~= three.push(p[i + 3]));
    one.lemma_flatten_one_element();
    one.lemma_flatten_push(p[i + 1]);
    two.lemma_flatten_push(p[i + 2]);
    three.lemma_flatten_push(p[i + 3]);
    assert(four.flatten() =~= p[i] + (p[i + 1] + p[i + 2] + p[i + 3]));
    assert(p.take(i).flatten() + (p[i] + (p[i + 1] + p[i + 2] + p[i + 3])) + p.skip(
        i + 4,
    ).flatten() == p.flatten());
}

/// The report shows what inference takes, and how many of how many cases passed.
pub proof fn law_report_shows_inference_and_quality(report: TelemetryReport)
    ensures
        shows(
            report_text(report),
            "[2] COMPUTE И ЛАТЕНТНОСТЬ НА ИНФЕРЕНСЕ (INFERENCE COMPUTE & LATENCY):\n    * Ответ за compute:         "@,
            text::decimal(report.figures.flops_per_token as nat),
        ),
        shows(
            report_text(report),
            " FLOPs на токен (~ 2 * N_params)\n    * Время генерации токена:   "@,
            report.figures.step_latency_ns@ + " ns ("@ + report.figures.step_latency_us@,
        ),
        shows(
            report_text(report),
            " µs)\n    * Пропускная способность:   "@,
            report.figures.tokens_per_sec@ + " токенов/сек ("@ + report.figures.mtokens_per_sec@,
        ),
        shows(
            report_text(report),
            "M токенов/сек)\n    * Вычислительная скорость:  "@,
            report.figures.inference_gflops@,
        ),
        shows(
            report_text(report),
            " GFLOP/s\n    * Число бенчмарк шагов:     "@,
            text::decimal(report.figures.bench_steps as nat),
        ),
        shows(
            report_text(report),
            "[3] КАЧЕСТВО МОДЕЛИ (QUALITY EVALUATION - EXACT MATCH):\n    * Точность (Exact Match):   "@,
            report.figures.exact_match_accuracy@,
        ),
        shows(
            report_text(report),
            "% ("@,
            text::decimal(
                report.test_cases@.filter(|case: TestCaseResult| case.passed).len(),
            ) + "/"@ + text::decimal(report.test_cases@.len()),
        ),
{
    let p = report.pieces();
    lemma_losses_place(report);
    law_passed_cases_are_counted(report.test_cases@);
    let part = telemetry::inference_pieces(report.figures);
    assert forall|k: int| 0 <= k < 15 implies #[trigger] part[k] == p[39 + k] by {
        assert(p.subrange(39, 54)[k] == p[39 + k]);
    }
    assert(part[0] == p[39] && part[1] == p[40]);
    assert(part[2] == p[41] && part[3] == p[42] && part[4] == p[43] && part[5] == p[44]);
    assert(part[6] == p[45] && part[7] == p[46] && part[8] == p[47] && part[9] == p[48]);
    assert(part[10] == p[49] && part[11] == p[50]);
    assert(part[12] == p[51] && part[13] == p[52]);
    lemma_pair_shown(p, 39);
    lemma_four_shown(p, 41);
    lemma_four_shown(p, 45);
    lemma_pair_shown(p, 49);
    lemma_pair_shown(p, 51);
    let quality = telemetry::quality_pieces(report.figures, report.test_cases@);
    assert forall|k: int| 0 <= k < 8 implies #[trigger] quality[k] == p[54 + k] by {
        assert(p.subrange(54, 62)[k] == p[54 + k]);
    }
    assert(quality[0] == p[54] && quality[1] == p[55]);
    assert(quality[2] == p[56] && quality[3] == p[57] && quality[4] == p[58] && quality[5]
        == p[59]);
    lemma_pair_shown(p, 54);
    lemma_four_shown(p, 56);
}

/// The row of a case: what it is about, whether it passed, what was asked, what the model answered
/// and what was expected, in columns.
pub open spec fn row_of(case: TestCaseResult) -> Seq<char> {
    "    | "@ + telemetry::padded(case.category@, 24) + " | "@ + telemetry::padded(
        if case.passed {
            "PASS"@
        } else {
            "FAIL"@
        },
        6,
    ) + " | "@ + telemetry::padded(case.prompt@, 25) + " | "@ + telemetry::padded(
        case.generated@,
        20,
    ) + " | "@ + telemetry::padded(case.expected@, 20) + " |\n"@
}

/// The rows of some cases, one behind the other.
pub open spec fn rows_of(cases: Seq<TestCaseResult>) -> Seq<char> {
    cases.map_values(|case: TestCaseResult| row_of(case)).flatten()
}

proof fn lemma_rows(cases: Seq<TestCaseResult>)
    ensures
        telemetry::case_pieces(cases).flatten() == rows_of(cases),
    decreases cases.len(),
{
    let rows = cases.map_values(|case: TestCaseResult| row_of(case));
    if cases.len() == 0 {
        assert(rows =~= Seq::empty());
        assert(telemetry::case_pieces(cases) =~= Seq::empty());
    } else {
        let front = cases.drop_last();
        let case = cases.last();
        lemma_rows(front);
        let before = front.map_values(|case: TestCaseResult| row_of(case));
        assert(rows =~= before.push(row_of(case)));
        before.lemma_flatten_push(row_of(case));
        let r = telemetry::row_pieces(
            case.category@,
            telemetry::status_of(case.passed),
            case.prompt@,
            case.generated@,
            case.expected@,
        );
        vstd::seq_lib::lemma_flatten_concat(telemetry::case_pieces(front), r);
        lemma_row_flat(r);
        assert(r.flatten() =~= row_of(case));
    }
}

proof fn lemma_row_flat(r: Seq<Seq<char>>)
    requires
        r.len() == 11,
    ensures
        r.flatten() == r[0] + r[1] + r[2] + r[3] + r[4] + r[5] + r[6] + r[7] + r[8] + r[9]
            + r[10],
{
    lemma_flat_step(r, 1);
    lemma_flat_step(r, 2);
    lemma_flat_step(r, 3);
    lemma_flat_step(r, 4);
    lemma_flat_step(r, 5);
    lemma_flat_step(r, 6);
    lemma_flat_step(r, 7);
    lemma_flat_step(r, 8);
    lemma_flat_step(r, 9);
    lemma_flat_step(r, 10);
    lemma_flat_step(r, 11);
    assert(r.take(0).flatten() =~= Seq::<char>::empty());
    assert(Seq::<char>::empty() + r[0] =~= r[0]);
    assert(r.take(11) =~= r);
}

proof fn lemma_flat_step(p: Seq<Seq<char>>, n: int)
    requires
        1 <= n <= p.len(),
    ensures
        p.take(n).flatten() == p.take(n - 1).flatten() + p[n - 1],
{
    assert(p.take(n) =~= p.take(n - 1).push(p[n - 1]));
    p.take(n - 1).lemma_flatten_push(p[n - 1]);
}

/// The report lists every case in its row, in order and one behind the other.
pub proof fn law_report_lists_the_cases(report: TelemetryReport)
    ensures
        exists|a: Seq<char>, b: Seq<char>|
            report_text(report) == #[trigger] (a + rows_of(report.test_cases@) + b),
{
    let p = report.pieces();
    let cases = telemetry::case_pieces(report.test_cases@);
    let footer = telemetry::footer_pieces();
    let n = p.len() - footer.len() - cases.len();
    assert(p.subrange(n, n + cases.len()) =~= cases);
    lemma_join_flat(p);
    lemma_parts_shown(p, n, cases.len() as int);
    lemma_rows(report.test_cases@);
}

/// No case before a place asks for something exactly where each of them goes without it.
pub proof fn law_asking_cases_are_found(
    cases: Seq<TestCaseResult>,
    part: Seq<char>,
    before: int,
)
    requires
        0 <= before <= cases.len(),
    ensures
        telemetry::none_asking(cases, part, before) <==> !exists|i: int|
            0 <= i < before && scan::occurs((#[trigger] cases[i]).prompt@, part),
{
}

} // verus!
