//! The exact volume of the Chinchilla corpora.

use vstd::prelude::*;

use crate::classic::tokenizer::VOCAB_CHINCHILLA;
use crate::classic::tokenizer;
use crate::corpus::base;
use crate::corpus::base_laws;
use crate::corpus::chinchilla;
use crate::corpus::chinchilla::{
    CHAIN_DIALOGUES, CHOICE_DIALOGUES, CONTRAST_IMPLICATIONS, FISH_IMPLICATION,
    HARE_IMPLICATION, HOW_DIALOGUES, HUMAN_DIALOGUE, HUMAN_IMPLICATION, KIND_DIALOGUES,
    MEAL_DIALOGUES, NOTION_DIALOGUES, NOTION_VERDICTS, NUMBER_DIALOGUES, PIKE_IMPLICATION,
    PLACE_DIALOGUES, REASON_DIALOGUES, WOLF_IMPLICATION,
};
use crate::corpus::chinchilla_laws;
use crate::corpus::drill_laws;
use crate::corpus::drills::{Domain, Form};
use crate::corpus::drills;
use crate::corpus::filling;
use crate::corpus::remainder;
use crate::corpus::sentence_laws;
use crate::corpus::sentences;
use crate::corpus::words::{
    EATS, FISH, HARE, HOW, HUMAN, IF, MINUS, NUMBER, OVER, PIKE, PLUS, TIMES, WHAT, WHO, WHY,
    WOLF,
};

verus! {

/// The topic of a dialogue of the instruction text, told by its length and a few of its words.
pub open spec fn topic(s: Seq<usize>) -> int {
    if s.len() == 6 {
        17
    } else if s.len() == 7 {
        if s[2] == EATS {
            19
        } else if s[3] == NUMBER {
            13
        } else {
            2
        }
    } else if s[1] == IF {
        if s[2] == WOLF {
            5
        } else if s[2] == HARE {
            6
        } else if s[2] == PIKE {
            7
        } else if s[2] == FISH {
            8
        } else if s[2] == HUMAN {
            10
        } else {
            9
        }
    } else if s.len() == 8 {
        if s[1] == WHO {
            if s[2] == HUMAN {
                1
            } else {
                18
            }
        } else if s[1] == HOW {
            4
        } else if s[2] == MINUS {
            14
        } else if s[2] == OVER {
            15
        } else {
            16
        }
    } else if s.len() == 9 {
        if s[1] == WHAT {
            0
        } else {
            12
        }
    } else if s[1] == WHY {
        3
    } else {
        11
    }
}

/// Every sentence is on the given topic, and none stands twice.
pub open spec fn on_topic(list: Seq<Seq<usize>>, k: int) -> bool {
    &&& list.no_duplicates()
    &&& forall|i: int| 0 <= i < list.len() ==> topic(#[trigger] list[i]) == k
}

/// Every sentence is on a topic before the given one, and none stands twice.
pub open spec fn before_topic(list: Seq<Seq<usize>>, k: int) -> bool {
    &&& list.no_duplicates()
    &&& forall|i: int| 0 <= i < list.len() ==> topic(#[trigger] list[i]) < k
}

proof fn lemma_append_topic(a: Seq<Seq<usize>>, b: Seq<Seq<usize>>, k: int)
    requires
        before_topic(a, k),
        on_topic(b, k),
    ensures
        before_topic(a + b, k + 1),
        (a + b).len() == a.len() + b.len(),
        (a + b).flatten().len() == a.flatten().len() + b.flatten().len(),
{
    let list = a + b;
    let n = a.len();
    sentence_laws::lemma_append_volume(a, b);
    assert forall|i: int| 0 <= i < list.len() implies topic(#[trigger] list[i]) < k + 1 by {
        if i < n {
            assert(list[i] == a[i]);
        } else {
            assert(list[i] == b[i - n]);
        }
    }
    assert forall|i: int, j: int|
        0 <= i < list.len() && 0 <= j < list.len() && i != j implies list[i] != list[j] by {
        if i < n && j < n {
            assert(a[i] != a[j]);
        } else if i >= n && j >= n {
            assert(b[i - n] != b[j - n]);
        } else if i < n {
            assert(topic(a[i]) < k && topic(b[j - n]) == k);
        } else {
            assert(topic(a[j]) < k && topic(b[i - n]) == k);
        }
    }
}

#[verifier::spinoff_prover]
#[verifier::rlimit(60)]
proof fn lemma_notion_topics()
    ensures
        on_topic(sentences::rows(NOTION_DIALOGUES@), 0),
        on_topic(sentences::rows(HUMAN_DIALOGUE@), 1),
        on_topic(sentences::rows(NOTION_VERDICTS@), 2),
{
}

#[verifier::spinoff_prover]
#[verifier::rlimit(60)]
proof fn lemma_reason_topics()
    ensures
        on_topic(sentences::rows(REASON_DIALOGUES@), 3),
        on_topic(sentences::rows(HOW_DIALOGUES@), 4),
{
}

#[verifier::spinoff_prover]
#[verifier::rlimit(60)]
proof fn lemma_implication_topics()
    ensures
        on_topic(sentences::rows(WOLF_IMPLICATION@), 5),
        on_topic(sentences::rows(HARE_IMPLICATION@), 6),
        on_topic(sentences::rows(PIKE_IMPLICATION@), 7),
        on_topic(sentences::rows(FISH_IMPLICATION@), 8),
        on_topic(sentences::rows(CONTRAST_IMPLICATIONS@), 9),
        on_topic(sentences::rows(HUMAN_IMPLICATION@), 10),
{
}

#[verifier::spinoff_prover]
#[verifier::rlimit(60)]
proof fn lemma_chain_topics()
    ensures
        on_topic(sentences::rows(CHAIN_DIALOGUES@), 11),
        on_topic(sentences::rows(CHOICE_DIALOGUES@), 12),
        on_topic(sentences::rows(NUMBER_DIALOGUES@), 13),
{
}

#[verifier::spinoff_prover]
#[verifier::rlimit(60)]
proof fn lemma_question_topics()
    ensures
        on_topic(sentences::rows(PLACE_DIALOGUES@), 17),
        on_topic(sentences::rows(MEAL_DIALOGUES@), 19),
{
}

/// The first eight questions about who each thing is; the ninth repeats an earlier one.
spec fn new_kinds() -> Seq<Seq<usize>> {
    sentences::rows(KIND_DIALOGUES@).take(8)
}

#[verifier::spinoff_prover]
#[verifier::rlimit(60)]
proof fn lemma_kind_topics()
    ensures
        on_topic(new_kinds(), 18),
        new_kinds().len() == 8,
        new_kinds().flatten().len() == 64,
        sentences::rows(KIND_DIALOGUES@) == new_kinds().push(HUMAN_DIALOGUE[0]@),
{
    let list = new_kinds();
    sentence_laws::lemma_uniform_volume(list, 8);
    assert(KIND_DIALOGUES[8]@ =~= HUMAN_DIALOGUE[0]@);
    assert(sentences::rows(KIND_DIALOGUES@) =~= list.push(HUMAN_DIALOGUE[0]@));
    assert(forall|i: int, j: int|
        0 <= i < j < 8 ==> (#[trigger] KIND_DIALOGUES[i])[2] != (#[trigger] KIND_DIALOGUES[j])[2]);
    assert forall|i: int, j: int| 0 <= i < 8 && 0 <= j < 8 && i != j implies list[i] != list[j] by {
        assert(list[i][2] == KIND_DIALOGUES[i][2] && list[j][2] == KIND_DIALOGUES[j][2]);
        if i < j {
            assert(KIND_DIALOGUES[i][2] != KIND_DIALOGUES[j][2]);
        } else {
            assert(KIND_DIALOGUES[j][2] != KIND_DIALOGUES[i][2]);
        }
    }
}

/// The dialogues about notions, deductions and numbers: 58 of 497 tokens.
proof fn lemma_reasoning_volume()
    ensures
        before_topic(chinchilla::reasoning(), 14),
        chinchilla::reasoning().len() == 58,
        chinchilla::reasoning().flatten().len() == 497,
        chinchilla::reasoning().contains(HUMAN_DIALOGUE[0]@),
{
    lemma_notion_topics();
    lemma_reason_topics();
    lemma_implication_topics();
    lemma_chain_topics();
    let l0 = sentences::rows(NOTION_DIALOGUES@);
    sentence_laws::lemma_rows_volume(NOTION_DIALOGUES@);
    sentence_laws::lemma_rows_volume(HUMAN_DIALOGUE@);
    sentence_laws::lemma_rows_volume(NOTION_VERDICTS@);
    sentence_laws::lemma_rows_volume(REASON_DIALOGUES@);
    sentence_laws::lemma_rows_volume(HOW_DIALOGUES@);
    sentence_laws::lemma_rows_volume(WOLF_IMPLICATION@);
    sentence_laws::lemma_rows_volume(HARE_IMPLICATION@);
    sentence_laws::lemma_rows_volume(PIKE_IMPLICATION@);
    sentence_laws::lemma_rows_volume(FISH_IMPLICATION@);
    sentence_laws::lemma_rows_volume(CONTRAST_IMPLICATIONS@);
    sentence_laws::lemma_rows_volume(HUMAN_IMPLICATION@);
    sentence_laws::lemma_rows_volume(CHAIN_DIALOGUES@);
    sentence_laws::lemma_rows_volume(CHOICE_DIALOGUES@);
    sentence_laws::lemma_rows_volume(NUMBER_DIALOGUES@);
    lemma_append_topic(l0, sentences::rows(HUMAN_DIALOGUE@), 1);
    let l1 = l0 + sentences::rows(HUMAN_DIALOGUE@);
    lemma_append_topic(l1, sentences::rows(NOTION_VERDICTS@), 2);
    let l2 = l1 + sentences::rows(NOTION_VERDICTS@);
    lemma_append_topic(l2, sentences::rows(REASON_DIALOGUES@), 3);
    let l3 = l2 + sentences::rows(REASON_DIALOGUES@);
    lemma_append_topic(l3, sentences::rows(HOW_DIALOGUES@), 4);
    let l4 = l3 + sentences::rows(HOW_DIALOGUES@);
    lemma_append_topic(l4, sentences::rows(WOLF_IMPLICATION@), 5);
    let l5 = l4 + sentences::rows(WOLF_IMPLICATION@);
    lemma_append_topic(l5, sentences::rows(HARE_IMPLICATION@), 6);
    let l6 = l5 + sentences::rows(HARE_IMPLICATION@);
    lemma_append_topic(l6, sentences::rows(PIKE_IMPLICATION@), 7);
    let l7 = l6 + sentences::rows(PIKE_IMPLICATION@);
    lemma_append_topic(l7, sentences::rows(FISH_IMPLICATION@), 8);
    let l8 = l7 + sentences::rows(FISH_IMPLICATION@);
    lemma_append_topic(l8, sentences::rows(CONTRAST_IMPLICATIONS@), 9);
    let l9 = l8 + sentences::rows(CONTRAST_IMPLICATIONS@);
    lemma_append_topic(l9, sentences::rows(HUMAN_IMPLICATION@), 10);
    let l10 = l9 + sentences::rows(HUMAN_IMPLICATION@);
    lemma_append_topic(l10, sentences::rows(CHAIN_DIALOGUES@), 11);
    let l11 = l10 + sentences::rows(CHAIN_DIALOGUES@);
    lemma_append_topic(l11, sentences::rows(CHOICE_DIALOGUES@), 12);
    let l12 = l11 + sentences::rows(CHOICE_DIALOGUES@);
    lemma_append_topic(l12, sentences::rows(NUMBER_DIALOGUES@), 13);
    let l13 = l12 + sentences::rows(NUMBER_DIALOGUES@);
    assert(chinchilla::reasoning()[5] == HUMAN_DIALOGUE[0]@);
}

proof fn lemma_drill_topic(domain: Domain, k: nat, t: int)
    requires
        k <= 100,
        domain == chinchilla::differences() && t == 14 || domain == Domain::Quotients && t == 15,
    ensures
        forall|i: int|
            0 <= i < drills::drill(domain, Form::Dialogue, 10, k).len() ==> topic(
                #[trigger] drills::drill(domain, Form::Dialogue, 10, k)[i],
            ) == t,
    decreases k,
{
    if k > 0 {
        let j = (k - 1) as nat;
        let a = j as int / 10;
        let b = j as int % 10;
        lemma_drill_topic(domain, j, t);
        let before = drills::drill(domain, Form::Dialogue, 10, j);
        if drills::admits(domain, a, b) {
            let made = drills::drilled(domain, Form::Dialogue, a, b);
            let list = before + made;
            assert forall|i: int| 0 <= i < list.len() implies topic(#[trigger] list[i]) == t by {
                if i < before.len() {
                    assert(list[i] == before[i]);
                } else {
                    assert(list[i] == made[0]);
                }
            }
        }
    }
}

/// What the dialogues of sums and products promise after the first `k` pairs.
spec fn mixed_sound(k: nat) -> bool {
    let list = chinchilla::mixed(k);
    &&& on_topic(list, 16)
    &&& forall|i: int|
        0 <= i < list.len() ==> drill_laws::pair_position(#[trigger] list[i], 6) < k && list[i].len()
            == 8
    &&& list.len() == drill_laws::admitted(chinchilla::sums(), 6, k) + drill_laws::admitted(
        Domain::Products,
        6,
        k,
    )
}

proof fn lemma_mixed(k: nat)
    requires
        k <= 36,
    ensures
        mixed_sound(k),
    decreases k,
{
    if k > 0 {
        let j = (k - 1) as nat;
        let a = j as int / 6;
        let b = j as int % 6;
        lemma_mixed(j);
        assert(a * 6 + b == j);
        let before = chinchilla::mixed(j);
        let sum = drills::dialogue(chinchilla::sums(), a, b);
        let product = drills::dialogue(Domain::Products, a, b);
        let list = chinchilla::mixed(k);
        let n = before.len();
        if drills::admits(chinchilla::sums(), a, b) {
            drill_laws::lemma_result_is_digit(chinchilla::sums(), a, b);
            assert(drill_laws::pair_position(sum, 6) == j);
            assert(topic(sum) == 16);
        }
        if drills::admits(Domain::Products, a, b) {
            drill_laws::lemma_result_is_digit(Domain::Products, a, b);
            assert(drill_laws::pair_position(product, 6) == j);
            assert(topic(product) == 16);
        }
        assert(sum[2] == PLUS && product[2] == TIMES);
        assert(forall|i: int| 0 <= i < n ==> list[i] == before[i]);
        assert(forall|i: int|
            n <= i < list.len() ==> (#[trigger] list[i] == sum && drills::admits(
                chinchilla::sums(),
                a,
                b,
            ) || list[i] == product && drills::admits(Domain::Products, a, b)));
        assert forall|i: int| 0 <= i < list.len() implies drill_laws::pair_position(
            #[trigger] list[i],
            6,
        ) < k && list[i].len() == 8 && topic(list[i]) == 16 by {
            if i < n {
                assert(list[i] == before[i]);
            }
        }
        assert forall|x: int, y: int|
            0 <= x < list.len() && 0 <= y < list.len() && x != y implies list[x] != list[y] by {
            if x < n && y < n {
                assert(before[x] != before[y]);
            } else if x < n {
                assert(drill_laws::pair_position(before[x], 6) < j);
            } else if y < n {
                assert(drill_laws::pair_position(before[y], 6) < j);
            }
        }
    }
}

/// The dialogues of sums and products: 61 of 488 tokens.
proof fn lemma_mixed_volume()
    ensures
        on_topic(chinchilla::mixed(36), 16),
        chinchilla::mixed(36).len() == 61,
        chinchilla::mixed(36).flatten().len() == 488,
{
    lemma_mixed(36);
    drill_laws::lemma_mixed_counts();
    sentence_laws::lemma_uniform_volume(chinchilla::mixed(36), 8);
}

/// Of a list that repeats nothing everything is kept.
pub proof fn lemma_deduped_unique(list: Seq<Seq<usize>>)
    requires
        list.no_duplicates(),
    ensures
        chinchilla::deduped(list) == list,
    decreases list.len(),
{
    if list.len() > 0 {
        let front = list.drop_last();
        lemma_deduped_unique(front);
        assert(list =~= front.push(list.last()));
        assert forall|i: int| 0 <= i < front.len() implies front[i] != list.last() by {
            assert(list[i] != list[list.len() - 1]);
        }
    }
}

proof fn lemma_deduped_append(list: Seq<Seq<usize>>, more: Seq<Seq<usize>>)
    requires
        (chinchilla::deduped(list) + more).no_duplicates(),
    ensures
        chinchilla::deduped(list + more) == chinchilla::deduped(list) + more,
    decreases more.len(),
{
    let kept = chinchilla::deduped(list);
    if more.len() == 0 {
        assert(list + more =~= list);
        assert(kept + more =~= kept);
    } else {
        let front = more.drop_last();
        let whole = kept + more;
        assert forall|i: int, j: int|
            0 <= i < (kept + front).len() && 0 <= j < (kept + front).len() && i != j implies (kept
            + front)[i] != (kept + front)[j] by {
            assert(whole[i] != whole[j]);
            assert((kept + front)[i] == whole[i] && (kept + front)[j] == whole[j]);
        }
        lemma_deduped_append(list, front);
        assert((list + more).drop_last() =~= list + front);
        assert(whole =~= (kept + front).push(more.last()));
        assert forall|i: int| 0 <= i < (kept + front).len() implies (kept + front)[i]
            != more.last() by {
            assert(whole[i] != whole[whole.len() - 1]);
            assert((kept + front)[i] == whole[i]);
        }
    }
}

/// The instruction text: 238 dialogues of 1901 tokens, none of them twice.
pub proof fn law_instruct_corpus()
    ensures
        sentences::all_well_formed(chinchilla::instruct()),
        chinchilla::instruct().no_duplicates(),
        chinchilla::instruct().len() == 238,
        chinchilla::instruct().flatten().len() == 1901,
{
    let diffs = drills::drill(chinchilla::differences(), Form::Dialogue, 10, 100);
    let quotients = drills::drill(Domain::Quotients, Form::Dialogue, 10, 100);
    let mixed = chinchilla::mixed(36);
    let places = sentences::rows(PLACE_DIALOGUES@);
    let meals = sentences::rows(MEAL_DIALOGUES@);
    let repeated = HUMAN_DIALOGUE[0]@;
    chinchilla_laws::lemma_instruct_well_formed();
    chinchilla_laws::law_deduped(chinchilla::instruct_candidates());
    lemma_reasoning_volume();
    lemma_question_topics();
    lemma_kind_topics();
    lemma_mixed_volume();
    drill_laws::lemma_count_all_differences();
    drill_laws::lemma_count_quotients();
    drill_laws::law_drill_volume(chinchilla::differences(), Form::Dialogue, 10, 100);
    drill_laws::law_drill_is_unique(chinchilla::differences(), Form::Dialogue, 10, 100);
    lemma_drill_topic(chinchilla::differences(), 100, 14);
    drill_laws::law_drill_volume(Domain::Quotients, Form::Dialogue, 10, 100);
    drill_laws::law_drill_is_unique(Domain::Quotients, Form::Dialogue, 10, 100);
    lemma_drill_topic(Domain::Quotients, 100, 15);
    sentence_laws::lemma_rows_volume(PLACE_DIALOGUES@);
    sentence_laws::lemma_rows_volume(MEAL_DIALOGUES@);
    let l0 = chinchilla::reasoning();
    lemma_append_topic(l0, diffs, 14);
    let l1 = l0 + diffs;
    lemma_append_topic(l1, quotients, 15);
    let l2 = l1 + quotients;
    lemma_append_topic(l2, mixed, 16);
    let l3 = l2 + mixed;
    lemma_append_topic(l3, places, 17);
    let l4 = l3 + places;
    lemma_append_topic(l4, new_kinds(), 18);
    let l5 = l4 + new_kinds();
    lemma_append_topic(l5, meals, 19);
    lemma_deduped_unique(l5);
    let at = choose|i: int| 0 <= i < l0.len() && l0[i] == repeated;
    assert(l5[at] == repeated);
    assert(l5.push(repeated).drop_last() =~= l5);
    assert(chinchilla::deduped(l5.push(repeated)) == l5);
    lemma_deduped_append(l5.push(repeated), meals);
    assert(chinchilla::instruct_candidates() =~= l5.push(repeated) + meals);
}

/// Under the Chinchilla vocabulary the instruction text has 1901 tokens and every line survives a
/// round trip.
pub proof fn law_instruct_corpus_exists()
    ensures
        chinchilla::instruct_exists(tokenizer::words(VOCAB_CHINCHILLA@)),
        tokenizer::encoding(
            tokenizer::words(VOCAB_CHINCHILLA@),
            sentences::text_of(chinchilla::instruct()),
        ).len() == 1901,
{
    let vocab = tokenizer::words(VOCAB_CHINCHILLA@);
    let list = chinchilla::instruct();
    law_instruct_corpus();
    lemma_chinchilla_covers(list);
    sentence_laws::law_text_encodes_to_its_sentences(vocab, list);
    lemma_faithful(list);
}

proof fn lemma_chinchilla_covers(list: Seq<Seq<usize>>)
    requires
        sentences::all_well_formed(list),
    ensures
        sentence_laws::covers(tokenizer::words(VOCAB_CHINCHILLA@), list),
{
    let vocab = tokenizer::words(VOCAB_CHINCHILLA@);
    assert(vocab =~= vocab.take(65));
    assert forall|i: int| 0 <= i < list.len() implies tokenizer::in_vocab(#[trigger] list[i], 65) by {
        assert(sentences::well_formed(list[i]));
    }
}

proof fn lemma_faithful(list: Seq<Seq<usize>>)
    requires
        sentences::all_well_formed(list),
    ensures
        chinchilla::faithful(tokenizer::words(VOCAB_CHINCHILLA@), list),
{
    let vocab = tokenizer::words(VOCAB_CHINCHILLA@);
    lemma_chinchilla_covers(list);
    assert forall|i: int| 0 <= i < list.len() implies tokenizer::decoding(
        vocab,
        tokenizer::encoding(vocab, sentences::spelled(#[trigger] list[i])),
    ) == sentences::spelled(list[i]) by {
        sentence_laws::law_line_survives_round_trip(vocab, list, i);
    }
}

/// The lengths of the fillers under the Chinchilla vocabulary.
proof fn lemma_filler_lens()
    ensures
        base::line_lens(tokenizer::words(VOCAB_CHINCHILLA@), chinchilla::fillers()) == seq![
            3usize,
            3,
            4,
            4,
            5,
            4,
            5,
            6,
            7,
            6,
            9,
            8,
        ],
{
    let vocab = tokenizer::words(VOCAB_CHINCHILLA@);
    let list = chinchilla::fillers();
    let lens = base::line_lens(vocab, list);
    chinchilla_laws::lemma_fillers_well_formed();
    lemma_chinchilla_covers(list);
    base_laws::lemma_covered_lens(vocab, list, 0);
    assert(forall|i: int| 0 <= i < 12 ==> #[trigger] lens[i] == list[i].len());
    assert(lens =~= seq![3usize, 3, 4, 4, 5, 4, 5, 6, 7, 6, 9, 8]);
}

/// Under the Chinchilla vocabulary every remainder but one and two can be made up.
pub proof fn law_remainder_is_made_up(target: nat)
    requires
        target != 1,
        target != 2,
    ensures
        chinchilla::made_up(tokenizer::words(VOCAB_CHINCHILLA@), target) is Some,
    decreases target,
{
    let lens = base::line_lens(tokenizer::words(VOCAB_CHINCHILLA@), chinchilla::fillers());
    lemma_filler_lens();
    assert(remainder::backtracks(lens));
    if target == 4 {
        remainder::lemma_search_succeeds_by(lens, target, 2);
    } else if target == 5 {
        remainder::lemma_search_succeeds_by(lens, target, 4);
    } else if target >= 3 {
        law_remainder_is_made_up((target - 3) as nat);
        remainder::lemma_search_succeeds_by(lens, target, 0);
    }
}

/// A remainder of one or two tokens cannot be made up.
proof fn lemma_remainder_too_small(target: nat)
    requires
        target == 1 || target == 2,
    ensures
        chinchilla::made_up(tokenizer::words(VOCAB_CHINCHILLA@), target) is None,
{
    let lens = base::line_lens(tokenizer::words(VOCAB_CHINCHILLA@), chinchilla::fillers());
    lemma_filler_lens();
    remainder::law_search_is_exact(lens, target);
    if let Some(picks) = remainder::search(lens, target) {
        if picks.len() > 0 {
            assert(picks[0] < lens.len());
            assert(remainder::tokens_at(lens, picks) >= lens[picks[0] as int]);
        }
    }
}

/// The first number of lines after which at most `margin` tokens are missing.
proof fn lemma_first_reach(lens: Seq<usize>, margin: nat, target: nat, k: nat) -> (m: nat)
    requires
        lens.len() > 0,
        filling::prefix(lens, k) + margin >= target,
    ensures
        filling::prefix(lens, m) + margin >= target,
        forall|j: nat| j < m ==> #[trigger] filling::prefix(lens, j) + margin < target,
    decreases k,
{
    if k == 0 {
        0
    } else if filling::prefix(lens, (k - 1) as nat) + margin >= target {
        lemma_first_reach(lens, margin, target, (k - 1) as nat)
    } else {
        assert forall|j: nat| j < k implies #[trigger] filling::prefix(lens, j) + margin
            < target by {
            filling::lemma_prefix_monotone(lens, j, (k - 1) as nat);
        }
        k
    }
}

/// A pool of lines of one to `most` tokens fills any budget up to a margin of at least `most`,
/// and beyond the margin leaves more than `margin - most` tokens missing.
proof fn lemma_pool_fills(lens: Seq<usize>, most: nat, margin: nat, target: nat)
    requires
        lens.len() > 0,
        forall|i: int| 0 <= i < lens.len() ==> 1 <= #[trigger] lens[i] <= most,
        most <= margin,
    ensures
        filling::fillable(lens, margin, target),
        target <= margin ==> filling::missing(lens, margin, target) == target,
        target > margin ==> margin - most < filling::missing(lens, margin, target) <= margin,
{
    let n = lens.len();
    let k = n * target;
    let total = filling::total(lens);
    filling::lemma_partial_monotone(lens, 1, n);
    assert(filling::partial(lens, 1) == filling::partial(lens, 0) + lens[0]);
    assert(total >= 1);
    vstd::arithmetic::div_mod::lemma_div_multiples_vanish(target as int, n as int);
    assert(k / n == target);
    assert(target * total >= target) by (nonlinear_arith)
        requires
            total >= 1,
    ;
    assert(filling::prefix(lens, k) >= target);
    let m = lemma_first_reach(lens, margin, target, k);
    assert(filling::prefix(lens, 0) == 0) by {
        assert(0 * total == 0);
    }
    if m > 0 {
        let j = (m - 1) as nat;
        filling::lemma_prefix_step(lens, j);
        assert(filling::prefix(lens, j) + margin < target);
        assert(1 <= lens[(j % n) as int] <= most);
    }
    assert(filling::fills(lens, margin, target, m));
    filling::lemma_fills_once(
        lens,
        margin,
        target,
        m,
        filling::lines_taken(lens, margin, target),
    );
    if target > margin && m == 0 {
        assert(false);
    }
    if target <= margin && m > 0 {
        assert(filling::prefix(lens, 0) + margin < target);
    }
}

/// Under the Chinchilla vocabulary a pre-training text of exactly the wanted number of tokens
/// exists for every number but one and two.
pub proof fn law_pretrain_corpus_exists(target: nat)
    ensures
        chinchilla::pretrain_exists(tokenizer::words(VOCAB_CHINCHILLA@), target) <==> target != 1
            && target != 2,
{
    let vocab = tokenizer::words(VOCAB_CHINCHILLA@);
    let pool = chinchilla::pool();
    let lens = base::line_lens(vocab, pool);
    let margin = chinchilla::MARGIN as nat;
    let rest = chinchilla::pretrain_missing(vocab, target);
    chinchilla_laws::law_pool_is_sound();
    lemma_chinchilla_covers(pool);
    base_laws::lemma_covered_lens(vocab, pool, 0);
    assert forall|i: int| 0 <= i < lens.len() implies 1 <= #[trigger] lens[i] <= 9 by {
        assert(sentences::well_formed(pool[i]));
        assert(lens[i] == pool[i].len());
    }
    lemma_pool_fills(lens, 9, margin, target);
    if target == 1 || target == 2 {
        lemma_remainder_too_small(target);
    } else {
        law_remainder_is_made_up(rest);
        let k = filling::lines_taken(lens, margin, target);
        let made = chinchilla::made_up(vocab, rest)->0;
        let list = chinchilla::pretrain(vocab, target);
        let filler_lens = base::line_lens(vocab, chinchilla::fillers());
        let picks = remainder::search(filler_lens, rest)->0;
        chinchilla_laws::lemma_pretrain_well_formed(vocab, target);
        lemma_chinchilla_covers(list);
        sentence_laws::law_text_encodes_to_its_sentences(vocab, list);
        lemma_faithful(list);
        base_laws::lemma_cycled_volume(vocab, pool, k);
        remainder::law_search_is_exact(filler_lens, rest);
        lemma_picked_volume(picks);
        sentence_laws::lemma_append_volume(filling::cycled(pool, k), made);
        assert(filling::fills(lens, margin, target, k));
    }
}

/// The fillers at the given positions have the tokens that the search counts.
proof fn lemma_picked_volume(picks: Seq<usize>)
    requires
        remainder::usable(
            base::line_lens(tokenizer::words(VOCAB_CHINCHILLA@), chinchilla::fillers()),
            picks,
        ),
    ensures
        chinchilla::picked(chinchilla::fillers(), picks).flatten().len() == remainder::tokens_at(
            base::line_lens(tokenizer::words(VOCAB_CHINCHILLA@), chinchilla::fillers()),
            picks,
        ),
    decreases picks.len(),
{
    let vocab = tokenizer::words(VOCAB_CHINCHILLA@);
    let fillers = chinchilla::fillers();
    let lens = base::line_lens(vocab, fillers);
    let list = chinchilla::picked(fillers, picks);
    if picks.len() > 0 {
        let rest = picks.drop_first();
        assert forall|i: int| 0 <= i < rest.len() implies (#[trigger] rest[i]) < lens.len()
            && lens[rest[i] as int] > 0 by {
            assert(rest[i] == picks[i + 1]);
        }
        lemma_picked_volume(rest);
        assert(list.drop_first() =~= chinchilla::picked(fillers, rest));
        chinchilla_laws::lemma_fillers_well_formed();
        lemma_chinchilla_covers(fillers);
        base_laws::lemma_covered_lens(vocab, fillers, 0);
        assert(picks[0] < lens.len());
        assert(lens[picks[0] as int] == fillers[picks[0] as int].len());
    }
}

} // verus!
