//! Which item a slot shows, given how well each template matches it.
use vstd::prelude::*;
use vstd::string::*;

use crate::item::{ItemKind, StratagemCategory};
use crate::slot::SlotLayout;
use crate::vision::{Classification, ItemAvailability, RoiObservation, Slot};

verus! {

/// Rank of a double precision number, given by its bits, in the total order of such numbers.
pub open spec fn wide_order_rank(bits: u64) -> int {
    if bits < 0x8000_0000_0000_0000 {
        bits as int
    } else {
        -(bits - 0x8000_0000_0000_0000) - 1
    }
}

/// The number that stands for a matching error, given by its bits, wherever errors are compared.
pub fn wide_order_key(bits: u64) -> (key: i64)
    ensures
        key == wide_order_rank(bits),
{
    if bits < 0x8000_0000_0000_0000 {
        bits as i64
    } else {
        -((bits - 0x8000_0000_0000_0000) as i64) - 1
    }
}

/// Two different bit patterns never share a rank.
pub proof fn wide_order_rank_is_injective(left: u64, right: u64)
    requires
        wide_order_rank(left) == wide_order_rank(right),
    ensures
        left == right,
{
}

/// The rank is that of a number or of an infinity, not of a NaN.
pub open spec fn is_number(rank: int) -> bool {
    -0x7ff0_0000_0000_0001 <= rank <= 0x7ff0_0000_0000_0000
}

/// The number of the first rank is less than that of the second. A NaN is less than nothing and
/// nothing is less than it, and both zeros, whose ranks are -1 and 0, are equal.
pub open spec fn is_less(left: int, right: int) -> bool {
    is_number(left) && is_number(right) && left < right && !(left == -1 && right == 0)
}

/// Whether the first of two numbers, given by their order keys, is less than the second.
pub fn less_than(left: i64, right: i64) -> (less: bool)
    ensures
        less == is_less(left as int, right as int),
{
    -0x7ff0_0000_0000_0001 <= left && right <= 0x7ff0_0000_0000_0000 && left < right && !(left == -1
        && right == 0)
}

/// A template and the category that its color tells.
#[derive(Debug)]
pub struct TemplateEntry {
    pub item_id: String,
    pub category: Option<StratagemCategory>,
}

/// How one slot and one template match. Lower scores are better. Numbers are held by their order
/// keys.
#[derive(Clone, Copy, Debug, PartialEq, Eq, Structural)]
pub struct TemplateScore {
    pub score: i64,
    /// The score in single precision.
    pub error: i32,
    /// How much worse the competing template is.
    pub margin: i32,
    /// How far the score lies below the threshold.
    pub quality: i32,
    pub availability: ItemAvailability,
}

/// How a slot and all templates match.
#[derive(Debug)]
pub struct SlotMatch {
    /// In the order of the templates.
    pub scores: Vec<TemplateScore>,
    /// How much worse the second template is.
    pub margin: i32,
}

/// The best place found for an item on a page.
#[derive(Debug)]
pub struct TemplateMatchCandidate {
    pub item_id: String,
    pub slot: Slot,
    pub score: TemplateScore,
}

/// The first template with the lowest score.
pub open spec fn is_best_template(scores: Seq<TemplateScore>, best: int) -> bool {
    &&& 0 <= best < scores.len()
    &&& forall|other: int|
        0 <= other < best ==> (#[trigger] scores[other]).score > scores[best].score
    &&& forall|other: int|
        best < other < scores.len() ==> (#[trigger] scores[other]).score >= scores[best].score
}

/// The first template with the lowest score.
pub fn best_template(scores: &Vec<TemplateScore>) -> (best: usize)
    requires
        scores@.len() > 0,
    ensures
        is_best_template(scores@, best as int),
{
    let mut best: usize = 0;
    let mut index: usize = 1;
    while index < scores.len()
        invariant
            0 <= best < index <= scores@.len(),
            forall|other: int|
                0 <= other < best ==> (#[trigger] scores@[other]).score > scores@[best as int].score,
            forall|other: int|
                best < other < index ==> (#[trigger] scores@[other]).score
                    >= scores@[best as int].score,
        decreases scores@.len() - index,
    {
        if scores[index].score < scores[best].score {
            best = index;
        }
        index = index + 1;
    }
    best
}

/// Two templates cannot both be the best.
pub proof fn best_template_is_unique(scores: Seq<TemplateScore>, left: int, right: int)
    requires
        is_best_template(scores, left),
        is_best_template(scores, right),
    ensures
        left == right,
{
    if left < right {
        assert(scores[left].score > scores[right].score);
    } else if right < left {
        assert(scores[right].score > scores[left].score);
    }
}

/// The template comes before another one in the order of the scores.
pub open spec fn is_ranked_before(scores: Seq<TemplateScore>, template: int, other: int) -> bool {
    scores[template].score < scores[other].score || (scores[template].score == scores[other].score
        && template < other)
}

/// The second template in the order of the scores: `best` comes before it, and it before all others.
pub open spec fn is_second_template(scores: Seq<TemplateScore>, best: int, second: int) -> bool {
    &&& 0 <= best < scores.len()
    &&& 0 <= second < scores.len()
    &&& is_ranked_before(scores, best, second)
    &&& forall|other: int|
        #![trigger scores[other]]
        0 <= other < scores.len() && other != best && other != second ==> is_ranked_before(
            scores,
            second,
            other,
        )
}

/// The template whose score the best one is measured against: the second in the order of the
/// scores, if there are two.
pub fn second_template(scores: &Vec<TemplateScore>) -> (second: Option<usize>)
    ensures
        match second {
            Some(at) => exists|best: int|
                is_best_template(scores@, best) && is_second_template(scores@, best, at as int),
            None => scores@.len() < 2,
        },
{
    if scores.len() < 2 {
        return None;
    }
    let best = best_template(scores);
    let mut second: usize = if best == 0 {
        1
    } else {
        0
    };
    let mut index: usize = second + 1;
    while index < scores.len()
        invariant
            best < scores@.len(),
            second < index <= scores@.len(),
            second != best,
            is_best_template(scores@, best as int),
            forall|other: int|
                #![trigger scores@[other]]
                0 <= other < index && other != best && other != second ==> is_ranked_before(
                    scores@,
                    second as int,
                    other,
                ),
        decreases scores@.len() - index,
    {
        if index != best && scores[index].score < scores[second].score {
            second = index;
        }
        index = index + 1;
    }
    assert(is_second_template(scores@, best as int, second as int));
    Some(second)
}

/// The template that competes with the one at `at`: the first with the lowest score among those of
/// other items.
pub open spec fn is_competing_template(
    templates: Seq<TemplateEntry>,
    scores: Seq<TemplateScore>,
    at: int,
    rival: int,
    count: int,
) -> bool {
    &&& 0 <= rival < count
    &&& templates[rival].item_id@ != templates[at].item_id@
    &&& forall|other: int|
        #![trigger scores[other]]
        0 <= other < count && other != rival && templates[other].item_id@ != templates[at].item_id@
            ==> is_ranked_before(scores, rival, other)
}

/// The template whose score the one at `at` is measured against, if some template is of another
/// item.
pub fn competing_template(
    templates: &Vec<TemplateEntry>,
    scores: &Vec<TemplateScore>,
    at: usize,
) -> (rival: Option<usize>)
    requires
        at < templates@.len(),
        scores@.len() == templates@.len(),
    ensures
        match rival {
            Some(found) => is_competing_template(
                templates@,
                scores@,
                at as int,
                found as int,
                templates@.len() as int,
            ),
            None => forall|other: int|
                0 <= other < templates@.len() ==> (#[trigger] templates@[other]).item_id@
                    == templates@[at as int].item_id@,
        },
{
    let mut rival: Option<usize> = None;
    let mut index: usize = 0;
    while index < templates.len()
        invariant
            at < templates@.len(),
            scores@.len() == templates@.len(),
            index <= templates@.len(),
            match rival {
                Some(found) => is_competing_template(
                    templates@,
                    scores@,
                    at as int,
                    found as int,
                    index as int,
                ),
                None => forall|other: int|
                    0 <= other < index ==> (#[trigger] templates@[other]).item_id@
                        == templates@[at as int].item_id@,
            },
        decreases templates@.len() - index,
    {
        if templates[index].item_id != templates[at].item_id {
            match rival {
                Some(found) => {
                    if scores[index].score < scores[found].score {
                        rival = Some(index);
                    }
                },
                None => {
                    rival = Some(index);
                },
            }
        }
        index = index + 1;
    }
    rival
}

/// Two templates cannot both be the second, nor both compete with a third.
pub proof fn measured_templates_are_unique(
    templates: Seq<TemplateEntry>,
    scores: Seq<TemplateScore>,
    at: int,
    best: int,
    left: int,
    right: int,
)
    ensures
        is_second_template(scores, best, left) && is_second_template(scores, best, right) ==> left
            == right,
        is_competing_template(templates, scores, at, left, templates.len() as int)
            && is_competing_template(templates, scores, at, right, templates.len() as int) ==> left
            == right,
{
    if left != right && is_second_template(scores, best, left) && is_second_template(
        scores,
        best,
        right,
    ) {
        assert(is_ranked_before(scores, left, right));
        assert(is_ranked_before(scores, right, left));
    }
    if left != right && is_competing_template(templates, scores, at, left, templates.len() as int)
        && is_competing_template(templates, scores, at, right, templates.len() as int) {
        assert(is_ranked_before(scores, left, right));
        assert(is_ranked_before(scores, right, left));
    }
}

/// What is recognized in a slot: the best template, if it matches well enough.
pub open spec fn is_recognized(
    classification: Option<Classification>,
    templates: Seq<TemplateEntry>,
    found: SlotMatch,
    threshold: i64,
) -> bool {
    exists|best: int| #[trigger]
        is_best_template(found.scores@, best) && match classification {
            Some(shown) => {
                &&& is_less(found.scores@[best].score as int, threshold as int)
                &&& shown.item_id@ == templates[best].item_id@
                &&& shown.match_score == found.scores@[best].error
                &&& shown.match_margin == found.margin
                &&& shown.gate_quality == found.scores@[best].quality
                &&& shown.availability == found.scores@[best].availability
            },
            None => !is_less(found.scores@[best].score as int, threshold as int),
        }
}

pub fn classify_slot(templates: &Vec<TemplateEntry>, found: &SlotMatch, threshold: i64) -> (
classification: Option<Classification>)
    requires
        templates@.len() > 0,
        found.scores@.len() == templates@.len(),
    ensures
        is_recognized(classification, templates@, *found, threshold),
{
    let best = best_template(&found.scores);
    let score = found.scores[best];
    assert(is_best_template(found.scores@, best as int));
    if less_than(score.score, threshold) {
        Some(
            Classification {
                item_id: templates[best].item_id.clone(),
                match_score: score.error,
                match_margin: found.margin,
                gate_quality: score.quality,
                availability: score.availability,
            },
        )
    } else {
        None
    }
}

/// The template and the slot come before others with the same score.
pub open spec fn comes_before(slot: int, template: int, other_slot: int, other: int) -> bool {
    slot < other_slot || (slot == other_slot && template <= other)
}

/// The slot and the template with the lowest score among all templates of an item, of the first
/// `count` slots.
pub open spec fn is_page_best(
    templates: Seq<TemplateEntry>,
    matches: Seq<SlotMatch>,
    item_id: Seq<char>,
    slot: int,
    template: int,
    count: int,
) -> bool {
    &&& 0 <= slot < count
    &&& 0 <= template < templates.len()
    &&& templates[template].item_id@ == item_id
    &&& forall|other_slot: int, other: int|
        0 <= other_slot < count && 0 <= other < templates.len() && templates[other].item_id@
            == item_id ==> {
            let score = matches[slot].scores@[template].score;
            let other_score = #[trigger] matches[other_slot].scores@[other].score;
            score < other_score || (score == other_score && comes_before(
                slot,
                template,
                other_slot,
                other,
            ))
        }
}

/// The best template of an item for one slot.
pub open spec fn is_slot_best(
    templates: Seq<TemplateEntry>,
    scores: Seq<TemplateScore>,
    item_id: Seq<char>,
    template: int,
    count: int,
) -> bool {
    &&& 0 <= template < count
    &&& templates[template].item_id@ == item_id
    &&& forall|other: int|
        0 <= other < count && templates[other].item_id@ == item_id ==> {
            let other_score = (#[trigger] scores[other]).score;
            scores[template].score < other_score || (scores[template].score == other_score
                && template <= other)
        }
}

fn best_for_slot(templates: &Vec<TemplateEntry>, scores: &Vec<TemplateScore>, wanted: usize) -> (
best: usize)
    requires
        wanted < templates@.len(),
        scores@.len() == templates@.len(),
    ensures
        is_slot_best(
            templates@,
            scores@,
            templates@[wanted as int].item_id@,
            best as int,
            templates@.len() as int,
        ),
{
    let ghost item_id = templates@[wanted as int].item_id@;
    let mut best: Option<usize> = None;
    let mut index: usize = 0;
    while index < templates.len()
        invariant
            index <= templates@.len(),
            wanted < templates@.len(),
            scores@.len() == templates@.len(),
            item_id == templates@[wanted as int].item_id@,
            match best {
                Some(at) => is_slot_best(templates@, scores@, item_id, at as int, index as int),
                None => index <= wanted && forall|other: int|
                    0 <= other < index ==> (#[trigger] templates@[other]).item_id@ != item_id,
            },
        decreases templates@.len() - index,
    {
        if templates[index].item_id == templates[wanted].item_id {
            match best {
                Some(at) => {
                    if scores[index].score < scores[at].score {
                        best = Some(index);
                    }
                },
                None => {
                    best = Some(index);
                },
            }
        }
        index = index + 1;
    }
    match best {
        Some(at) => at,
        None => wanted,
    }
}

/// The best slot and template for an item on a page with slots.
pub fn best_on_page(templates: &Vec<TemplateEntry>, matches: &Vec<SlotMatch>, wanted: usize) -> (
found: Option<(usize, usize)>)
    requires
        wanted < templates@.len(),
        forall|at: int|
            0 <= at < matches@.len() ==> (#[trigger] matches@[at]).scores@.len()
                == templates@.len(),
    ensures
        match found {
            Some((slot, template)) => is_page_best(
                templates@,
                matches@,
                templates@[wanted as int].item_id@,
                slot as int,
                template as int,
                matches@.len() as int,
            ),
            None => matches@.len() == 0,
        },
{
    let ghost item_id = templates@[wanted as int].item_id@;
    let mut found: Option<(usize, usize)> = None;
    let mut slot: usize = 0;
    while slot < matches.len()
        invariant
            slot <= matches@.len(),
            wanted < templates@.len(),
            item_id == templates@[wanted as int].item_id@,
            forall|at: int|
                0 <= at < matches@.len() ==> (#[trigger] matches@[at]).scores@.len()
                    == templates@.len(),
            match found {
                Some((best_slot, template)) => is_page_best(
                    templates@,
                    matches@,
                    item_id,
                    best_slot as int,
                    template as int,
                    slot as int,
                ),
                None => slot == 0,
            },
        decreases matches@.len() - slot,
    {
        let scores = &matches[slot].scores;
        assert(matches@[slot as int].scores@.len() == templates@.len());
        let template = best_for_slot(templates, scores, wanted);
        match found {
            Some((best_slot, best)) => {
                assert(matches@[best_slot as int].scores@.len() == templates@.len());
                if scores[template].score < matches[best_slot].scores[best].score {
                    found = Some((slot, template));
                }
            },
            None => {
                found = Some((slot, template));
            },
        }
        slot = slot + 1;
    }
    found
}

/// Why templates cannot be compared with a page.
#[derive(Clone, Copy, Debug, PartialEq, Eq, Structural)]
pub enum TemplateError {
    NoTemplates,
    /// The page is not a list of the items of the templates.
    OtherLayout,
    /// The page has no slot with an item.
    NoCandidateSlot,
}

/// Compares the slots of a list with templates.
#[derive(Debug)]
pub struct TemplateClassifier {
    item_kind: ItemKind,
    templates: Vec<TemplateEntry>,
    categories: Vec<StratagemCategory>,
    threshold: i64,
}

/// The categories of the first `count` templates, each where it first comes.
pub open spec fn categories_of(templates: Seq<TemplateEntry>, count: int) -> Seq<StratagemCategory>
    decreases count,
{
    if count <= 0 {
        Seq::empty()
    } else {
        let before = categories_of(templates, count - 1);
        match templates[count - 1].category {
            Some(category) => if before.contains(category) {
                before
            } else {
                before.push(category)
            },
            None => before,
        }
    }
}

fn holds_category(categories: &Vec<StratagemCategory>, category: StratagemCategory) -> (found: bool)
    ensures
        found == categories@.contains(category),
{
    let mut index: usize = 0;
    while index < categories.len()
        invariant
            index <= categories@.len(),
            forall|at: int| 0 <= at < index ==> categories@[at] != category,
        decreases categories@.len() - index,
    {
        if categories[index] == category {
            return true;
        }
        index = index + 1;
    }
    false
}

/// Some slot shows an item of this kind.
pub open spec fn has_candidate(slots: Seq<Slot>, item_kind: ItemKind) -> bool {
    exists|at: int| 0 <= at < slots.len() && (#[trigger] slots[at]).kind.selectable_for(item_kind)
}

/// The slots that show an item of this kind, among the first `count`.
pub open spec fn candidates(slots: Seq<Slot>, item_kind: ItemKind, count: int) -> Seq<int>
    decreases count,
{
    if count <= 0 {
        Seq::empty()
    } else if slots[count - 1].kind.selectable_for(item_kind) {
        candidates(slots, item_kind, count - 1).push(count - 1)
    } else {
        candidates(slots, item_kind, count - 1)
    }
}

/// The slot is another one but for what was recognized in it.
pub open spec fn same_place(left: Slot, right: Slot) -> bool {
    left == (Slot { classification: left.classification, ..right })
}

proof fn candidates_are_bounded(slots: Seq<Slot>, item_kind: ItemKind, count: int)
    requires
        0 <= count <= slots.len(),
    ensures
        candidates(slots, item_kind, count).len() <= count,
        forall|at: int|
            0 <= at < candidates(slots, item_kind, count).len() ==> 0 <= (#[trigger] candidates(
                slots,
                item_kind,
                count,
            )[at]) < count && slots[candidates(slots, item_kind, count)[at]].kind.selectable_for(
                item_kind,
            ),
    decreases count,
{
    if count > 0 {
        candidates_are_bounded(slots, item_kind, count - 1);
        let before = candidates(slots, item_kind, count - 1);
        let all = candidates(slots, item_kind, count);
        assert forall|at: int| 0 <= at < all.len() implies 0 <= (#[trigger] all[at]) < count
            && slots[all[at]].kind.selectable_for(item_kind) by {
            if at < before.len() {
                assert(all[at] == before[at]);
            }
        }
    }
}

proof fn candidates_grow(slots: Seq<Slot>, item_kind: ItemKind, fewer: int, more: int)
    requires
        0 <= fewer <= more <= slots.len(),
    ensures
        candidates(slots, item_kind, fewer).len() <= candidates(slots, item_kind, more).len(),
        candidates(slots, item_kind, more).take(
            candidates(slots, item_kind, fewer).len() as int,
        ) == candidates(slots, item_kind, fewer),
    decreases more - fewer,
{
    let start = candidates(slots, item_kind, fewer);
    if fewer < more {
        candidates_grow(slots, item_kind, fewer, more - 1);
        let before = candidates(slots, item_kind, more - 1);
        let all = candidates(slots, item_kind, more);
        assert(all.take(start.len() as int) =~= before.take(start.len() as int));
    } else {
        assert(start.take(start.len() as int) =~= start);
    }
}

/// What a page shows once its slots were compared: every slot with an item has what was recognized
/// in it, and the others stay as they are.
pub open spec fn is_classified(
    before: Seq<Slot>,
    after: Seq<Slot>,
    templates: Seq<TemplateEntry>,
    item_kind: ItemKind,
    matches: Seq<SlotMatch>,
    threshold: i64,
) -> bool {
    &&& after.len() == before.len()
    &&& forall|at: int|
        0 <= at < before.len() ==> if before[at].kind.selectable_for(item_kind) {
            &&& same_place(#[trigger] after[at], before[at])
            &&& is_recognized(
                after[at].classification,
                templates,
                matches[candidates(before, item_kind, at).len() as int],
                threshold,
            )
        } else {
            after[at] == before[at]
        }
}

impl TemplateClassifier {
    pub closed spec fn kind(&self) -> ItemKind {
        self.item_kind
    }

    pub closed spec fn entries(&self) -> Seq<TemplateEntry> {
        self.templates@
    }

    pub closed spec fn known_categories(&self) -> Seq<StratagemCategory> {
        self.categories@
    }

    pub closed spec fn limit(&self) -> i64 {
        self.threshold
    }

    #[verifier::type_invariant]
    spec fn inv(&self) -> bool {
        self.templates@.len() > 0
    }

    /// A classifier for the list that a page shows.
    pub fn new(
        item_kind: ItemKind,
        templates: Vec<TemplateEntry>,
        threshold: i64,
        initial_page: &RoiObservation,
    ) -> (classifier: Result<Self, TemplateError>)
        ensures
            match classifier {
                Ok(made) => {
                    &&& templates@.len() > 0
                    &&& initial_page.layout == SlotLayout::List(item_kind)
                    &&& has_candidate(initial_page.slots@, item_kind)
                    &&& made.kind() == item_kind
                    &&& made.entries() == templates@
                    &&& made.known_categories() == categories_of(
                        templates@,
                        templates@.len() as int,
                    )
                    &&& made.limit() == threshold
                },
                Err(TemplateError::NoTemplates) => templates@.len() == 0,
                Err(TemplateError::OtherLayout) => templates@.len() > 0 && initial_page.layout
                    != SlotLayout::List(item_kind),
                Err(TemplateError::NoCandidateSlot) => templates@.len() > 0 && initial_page.layout
                    == SlotLayout::List(item_kind) && !has_candidate(initial_page.slots@, item_kind),
            },
    {
        if templates.len() == 0 {
            return Err(TemplateError::NoTemplates);
        }
        if initial_page.layout != SlotLayout::List(item_kind) {
            return Err(TemplateError::OtherLayout);
        }
        let mut categories: Vec<StratagemCategory> = Vec::new();
        let mut index: usize = 0;
        while index < templates.len()
            invariant
                index <= templates@.len(),
                categories@ == categories_of(templates@, index as int),
            decreases templates@.len() - index,
        {
            if let Some(category) = templates[index].category {
                if !holds_category(&categories, category) {
                    categories.push(category);
                }
            }
            index = index + 1;
        }
        let mut slot: usize = 0;
        while slot < initial_page.slots.len()
            && !initial_page.slots[slot].kind.is_selectable_item_for(item_kind)
            invariant
                slot <= initial_page.slots@.len(),
                forall|at: int|
                    0 <= at < slot ==> !(
                    #[trigger] initial_page.slots@[at]).kind.selectable_for(item_kind),
            decreases initial_page.slots@.len() - slot,
        {
            slot = slot + 1;
        }
        if slot == initial_page.slots.len() {
            return Err(TemplateError::NoCandidateSlot);
        }
        Ok(TemplateClassifier { item_kind, templates, categories, threshold })
    }

    /// Says of each slot with an item what it shows, and gives for each template the best place of
    /// its item. `matches` has an entry for each slot with an item, in the order of the slots.
    pub fn classify_batch(&self, page: RoiObservation, matches: &Vec<SlotMatch>) -> (classified:
        Result<(RoiObservation, Vec<TemplateMatchCandidate>), TemplateError>)
        requires
            matches@.len() == candidates(
                page.slots@,
                self.kind(),
                page.slots@.len() as int,
            ).len(),
            forall|at: int|
                0 <= at < matches@.len() ==> (#[trigger] matches@[at]).scores@.len()
                    == self.entries().len(),
        ensures
            match classified {
                Ok((after, best)) => {
                    &&& page.layout == SlotLayout::List(self.kind())
                    &&& after.image == page.image
                    &&& after.layout == page.layout
                    &&& is_classified(
                        page.slots@,
                        after.slots@,
                        self.entries(),
                        self.kind(),
                        matches@,
                        self.limit(),
                    )
                    &&& best@.len() == if matches@.len() == 0 {
                        0
                    } else {
                        self.entries().len()
                    }
                    &&& forall|wanted: int|
                        0 <= wanted < best@.len() ==> self.is_candidate(
                            #[trigger] best@[wanted],
                            page.slots@,
                            matches@,
                            wanted,
                        )
                },
                Err(error) => error == TemplateError::OtherLayout && page.layout
                    != SlotLayout::List(self.kind()),
            },
    {
        proof {
            use_type_invariant(self);
        }
        if page.layout != SlotLayout::List(self.item_kind) {
            return Err(TemplateError::OtherLayout);
        }
        let RoiObservation { image, layout, slots } = page;
        let ghost before = slots@;
        let mut after: Vec<Slot> = Vec::new();
        let mut places: Vec<usize> = Vec::new();
        let mut index: usize = 0;
        while index < slots.len()
            invariant
                slots@ == before,
                index <= before.len(),
                self.templates@.len() > 0,
                after@.len() == index,
                places@.len() == candidates(before, self.item_kind, index as int).len(),
                forall|at: int|
                    0 <= at < places@.len() ==> #[trigger] places@[at] == candidates(
                        before,
                        self.item_kind,
                        index as int,
                    )[at],
                matches@.len() == candidates(before, self.item_kind, before.len() as int).len(),
                forall|at: int|
                    0 <= at < matches@.len() ==> (#[trigger] matches@[at]).scores@.len()
                        == self.templates@.len(),
                forall|at: int|
                    0 <= at < index ==> if before[at].kind.selectable_for(self.item_kind) {
                        &&& same_place(#[trigger] after@[at], before[at])
                        &&& is_recognized(
                            after@[at].classification,
                            self.templates@,
                            matches@[candidates(before, self.item_kind, at).len() as int],
                            self.threshold,
                        )
                    } else {
                        after@[at] == before[at]
                    },
            decreases before.len() - index,
        {
            let mut slot = slots[index].clone();
            if slot.kind.is_selectable_item_for(self.item_kind) {
                proof {
                    candidates_grow(before, self.item_kind, index + 1, before.len() as int);
                }
                assert(matches@[places@.len() as int].scores@.len() == self.templates@.len());
                slot.classification =
                classify_slot(&self.templates, &matches[places.len()], self.threshold);
                places.push(index);
            }
            after.push(slot);
            index = index + 1;
        }
        let ghost all = candidates(before, self.item_kind, before.len() as int);
        proof {
            candidates_are_bounded(before, self.item_kind, before.len() as int);
        }
        let mut best: Vec<TemplateMatchCandidate> = Vec::new();
        let mut wanted: usize = 0;
        while wanted < self.templates.len() && matches.len() > 0
            invariant
                wanted <= self.templates@.len(),
                matches@.len() == 0 ==> wanted == 0,
                slots@ == before,
                all == candidates(before, self.item_kind, before.len() as int),
                places@.len() == all.len() == matches@.len(),
                forall|at: int| 0 <= at < places@.len() ==> #[trigger] places@[at] == all[at],
                forall|at: int| 0 <= at < all.len() ==> 0 <= (#[trigger] all[at]) < before.len(),
                forall|at: int|
                    0 <= at < matches@.len() ==> (#[trigger] matches@[at]).scores@.len()
                        == self.templates@.len(),
                best@.len() == wanted,
                forall|done: int|
                    0 <= done < wanted ==> self.is_candidate(
                        #[trigger] best@[done],
                        before,
                        matches@,
                        done,
                    ),
            decreases self.templates@.len() - wanted,
        {
            if let Some((place, template)) = best_on_page(&self.templates, matches, wanted) {
                assert(places@[place as int] == all[place as int]);
                assert(matches@[place as int].scores@.len() == self.templates@.len());
                let candidate = TemplateMatchCandidate {
                    item_id: self.templates[wanted].item_id.clone(),
                    slot: slots[places[place]].clone(),
                    score: matches[place].scores[template],
                };
                proof {
                    assert(is_page_best(
                        self.templates@,
                        matches@,
                        self.templates@[wanted as int].item_id@,
                        place as int,
                        template as int,
                        matches@.len() as int,
                    ));
                    assert(self.is_candidate(candidate, before, matches@, wanted as int));
                }
                best.push(candidate);
            }
            wanted = wanted + 1;
        }
        Ok((RoiObservation { image, layout, slots: after }, best))
    }

    /// The best place of the item of a template.
    pub open spec fn is_candidate(
        &self,
        candidate: TemplateMatchCandidate,
        slots: Seq<Slot>,
        matches: Seq<SlotMatch>,
        wanted: int,
    ) -> bool {
        let places = candidates(slots, self.kind(), slots.len() as int);
        &&& candidate.item_id@ == self.entries()[wanted].item_id@
        &&& exists|place: int, template: int| #[trigger]
            is_page_best(
                self.entries(),
                matches,
                self.entries()[wanted].item_id@,
                place,
                template,
                matches.len() as int,
            ) && candidate.slot == slots[places[place]] && candidate.score
                == matches[place].scores@[template]
    }
}

/// Of two numbers that are not negative, the one with the larger bits ranks higher; of two negative
/// ones, the one with the smaller bits; and every negative one ranks below the others. Bits beyond
/// those of infinity, apart from the sign, are no number.
pub proof fn wide_ranks_order_numbers(left: u64, right: u64)
    ensures
        left < 0x8000_0000_0000_0000 && right < 0x8000_0000_0000_0000 ==> (wide_order_rank(left)
            < wide_order_rank(right) <==> left < right),
        left >= 0x8000_0000_0000_0000 && right >= 0x8000_0000_0000_0000 ==> (wide_order_rank(left)
            < wide_order_rank(right) <==> left > right),
        left >= 0x8000_0000_0000_0000 && right < 0x8000_0000_0000_0000 ==> wide_order_rank(left)
            < wide_order_rank(right),
        is_number(wide_order_rank(left)) <==> left % 0x8000_0000_0000_0000 <= 0x7ff0_0000_0000_0000,
{
}

/// Numbers are compared as such: nothing is less than itself, less than less is less, of two
/// different numbers one is less unless both are zero, and no other bits are less than anything.
pub proof fn numbers_are_compared(first: u64, second: u64, third: u64)
    ensures
        ({
            let (a, b, c) = (
                wide_order_rank(first),
                wide_order_rank(second),
                wide_order_rank(third),
            );
            let is_zero = |bits: u64| bits % 0x8000_0000_0000_0000 == 0;
            let is_nan = |bits: u64| bits % 0x8000_0000_0000_0000 > 0x7ff0_0000_0000_0000;
            &&& !is_less(a, a)
            &&& is_less(a, b) && is_less(b, c) ==> is_less(a, c)
            &&& is_less(a, b) ==> !is_less(b, a)
            &&& is_zero(first) && is_zero(second) ==> !is_less(a, b)
            &&& is_nan(first) || is_nan(second) ==> !is_less(a, b)
            &&& first != second && !is_nan(first) && !is_nan(second) && !(is_zero(first) && is_zero(
                second,
            )) ==> is_less(a, b) || is_less(b, a)
            &&& first < second < 0x7ff0_0000_0000_0000 ==> is_less(a, b)
        }),
{
}

/// The best template has the lowest score. The second one has the lowest of the others, and a
/// competing one the lowest of those of other items.
pub proof fn best_templates_have_low_scores(
    templates: Seq<TemplateEntry>,
    scores: Seq<TemplateScore>,
    best: int,
    second: int,
    at: int,
    rival: int,
    other: int,
)
    requires
        templates.len() == scores.len(),
        0 <= other < scores.len(),
    ensures
        is_best_template(scores, best) ==> scores[best].score <= scores[other].score,
        is_best_template(scores, best) && scores[best].score == scores[other].score ==> best
            <= other,
        is_second_template(scores, best, second) ==> second != best && scores[best].score
            <= scores[second].score,
        is_second_template(scores, best, second) && other != best ==> scores[second].score
            <= scores[other].score,
        is_competing_template(templates, scores, at, rival, scores.len() as int)
            ==> templates[rival].item_id@ != templates[at].item_id@,
        is_competing_template(templates, scores, at, rival, scores.len() as int)
            && templates[other].item_id@ != templates[at].item_id@ ==> scores[rival].score
            <= scores[other].score,
{
    assert(scores[other] == scores[other]);
}

/// What is shown is the item of a template whose score lies below the threshold, with no lower
/// score. Where all scores are numbers, nothing is shown only if none lies below the threshold.
pub proof fn low_scores_are_recognized(
    classification: Option<Classification>,
    templates: Seq<TemplateEntry>,
    found: SlotMatch,
    threshold: i64,
)
    requires
        is_recognized(classification, templates, found, threshold),
    ensures
        classification matches Some(shown) ==> exists|best: int|
            0 <= best < found.scores@.len() && #[trigger] templates[best].item_id@
                == shown.item_id@ && is_less(found.scores@[best].score as int, threshold as int)
                && forall|other: int|
                0 <= other < found.scores@.len() ==> found.scores@[best].score <= (
                #[trigger] found.scores@[other]).score,
        (forall|other: int|
            0 <= other < found.scores@.len() ==> is_number(
                (#[trigger] found.scores@[other]).score as int,
            )) ==> (classification is None <==> forall|other: int|
            0 <= other < found.scores@.len() ==> !is_less(
                (#[trigger] found.scores@[other]).score as int,
                threshold as int,
            )),
{
    let best = choose|best: int| #[trigger]
        is_best_template(found.scores@, best) && match classification {
            Some(shown) => {
                &&& is_less(found.scores@[best].score as int, threshold as int)
                &&& shown.item_id@ == templates[best].item_id@
                &&& shown.match_score == found.scores@[best].error
                &&& shown.match_margin == found.margin
                &&& shown.gate_quality == found.scores@[best].quality
                &&& shown.availability == found.scores@[best].availability
            },
            None => !is_less(found.scores@[best].score as int, threshold as int),
        };
    assert forall|other: int| 0 <= other < found.scores@.len() implies found.scores@[best].score
        <= (#[trigger] found.scores@[other]).score by {}
    if classification is Some {
        assert(templates[best].item_id@ == classification->0.item_id@);
    }
    if forall|other: int|
        0 <= other < found.scores@.len() ==> is_number(
            (#[trigger] found.scores@[other]).score as int,
        ) {
        assert(is_number(found.scores@[best].score as int));
        if classification is None {
            assert forall|other: int| 0 <= other < found.scores@.len() implies !is_less(
                (#[trigger] found.scores@[other]).score as int,
                threshold as int,
            ) by {
                assert(found.scores@[best].score <= found.scores@[other].score);
            }
        } else {
            assert(is_less(found.scores@[best].score as int, threshold as int));
        }
    }
}

/// The best place of an item on a page is one of its templates, and on no slot does a template of
/// the item have a lower score.
pub proof fn page_bests_have_low_scores(
    templates: Seq<TemplateEntry>,
    matches: Seq<SlotMatch>,
    item_id: Seq<char>,
    slot: int,
    template: int,
    other_slot: int,
    other: int,
)
    requires
        is_page_best(templates, matches, item_id, slot, template, matches.len() as int),
        0 <= other_slot < matches.len(),
        0 <= other < templates.len(),
        templates[other].item_id@ == item_id,
    ensures
        templates[template].item_id@ == item_id,
        matches[slot].scores@[template].score <= matches[other_slot].scores@[other].score,
        matches[slot].scores@[template].score == matches[other_slot].scores@[other].score ==> slot
            <= other_slot,
{
    assert(matches[other_slot].scores@[other].score == matches[other_slot].scores@[other].score);
}

/// The categories of templates are those that some template has, each once.
pub proof fn categories_come_from_templates(
    templates: Seq<TemplateEntry>,
    count: int,
    category: StratagemCategory,
)
    requires
        0 <= count <= templates.len(),
    ensures
        categories_of(templates, count).contains(category) <==> exists|at: int|
            0 <= at < count && (#[trigger] templates[at]).category == Some(category),
        categories_of(templates, count).no_duplicates(),
    decreases count,
{
    if count > 0 {
        categories_come_from_templates(templates, count - 1, category);
        let before = categories_of(templates, count - 1);
        let all = categories_of(templates, count);
        let last = templates[count - 1].category;
        if last is Some && !before.contains(last->0) {
            assert(all[all.len() - 1] == last->0);
        }
        if before.contains(category) {
            let at = choose|at: int| 0 <= at < before.len() && before[at] == category;
            assert(all[at] == category);
        }
        if all.contains(category) && !before.contains(category) {
            let at = choose|at: int| 0 <= at < all.len() && all[at] == category;
            assert(at < before.len() ==> before[at] == category);
            assert(templates[count - 1].category == Some(category));
        }
    }
}

/// The slots to compare are those that show an item of the kind, each of them, in their order.
pub proof fn candidates_show_their_items(
    slots: Seq<Slot>,
    item_kind: ItemKind,
    count: int,
    slot: int,
)
    requires
        0 <= count <= slots.len(),
    ensures
        candidates(slots, item_kind, count).contains(slot) <==> 0 <= slot < count
            && slots[slot].kind.selectable_for(item_kind),
        forall|left: int, right: int|
            0 <= left < right < candidates(slots, item_kind, count).len() ==> candidates(
                slots,
                item_kind,
                count,
            )[left] < candidates(slots, item_kind, count)[right],
    decreases count,
{
    candidates_are_bounded(slots, item_kind, count);
    if count > 0 {
        candidates_show_their_items(slots, item_kind, count - 1, slot);
        candidates_are_bounded(slots, item_kind, count - 1);
        let before = candidates(slots, item_kind, count - 1);
        let all = candidates(slots, item_kind, count);
        if before.contains(slot) {
            let at = choose|at: int| 0 <= at < before.len() && before[at] == slot;
            assert(all[at] == slot);
        }
        if all.contains(slot) && !before.contains(slot) {
            let at = choose|at: int| 0 <= at < all.len() && all[at] == slot;
            assert(at < before.len() ==> before[at] == slot);
        }
        if slot == count - 1 && slots[slot].kind.selectable_for(item_kind) {
            assert(all[all.len() - 1] == slot);
        }
        assert forall|left: int, right: int| 0 <= left < right < all.len() implies all[left]
            < all[right] by {
            assert(left < before.len() && all[left] == before[left]);
            if right < before.len() {
                assert(all[right] == before[right]);
            }
        }
    }
}

/// Comparing a page says what its slots show and changes nothing else: every slot keeps its place,
/// its extent and its kind, and one that cannot be picked keeps what it showed.
pub proof fn compared_slots_stay_in_place(
    before: Seq<Slot>,
    after: Seq<Slot>,
    templates: Seq<TemplateEntry>,
    item_kind: ItemKind,
    matches: Seq<SlotMatch>,
    threshold: i64,
    at: int,
)
    requires
        is_classified(before, after, templates, item_kind, matches, threshold),
        0 <= at < before.len(),
    ensures
        after.len() == before.len(),
        after[at].x == before[at].x && after[at].y == before[at].y,
        after[at].w == before[at].w && after[at].h == before[at].h,
        after[at].center_x == before[at].center_x && after[at].center_y == before[at].center_y,
        after[at].row == before[at].row && after[at].col == before[at].col,
        after[at].kind == before[at].kind,
        !before[at].kind.selectable_for(item_kind) ==> after[at].classification
            == before[at].classification,
{
    assert(after[at] == after[at]);
}

/// The best place of the item of a template is a slot that can be picked, and no slot has a template
/// of the item with a lower score.
pub proof fn best_places_can_be_picked(
    classifier: TemplateClassifier,
    candidate: TemplateMatchCandidate,
    slots: Seq<Slot>,
    matches: Seq<SlotMatch>,
    wanted: int,
    other_slot: int,
    other: int,
)
    requires
        classifier.is_candidate(candidate, slots, matches, wanted),
        matches.len() == candidates(slots, classifier.kind(), slots.len() as int).len(),
        0 <= other_slot < matches.len(),
        0 <= other < classifier.entries().len(),
        classifier.entries()[other].item_id@ == classifier.entries()[wanted].item_id@,
    ensures
        candidate.item_id@ == classifier.entries()[wanted].item_id@,
        slots.contains(candidate.slot),
        candidate.slot.kind.selectable_for(classifier.kind()),
        candidate.score.score <= matches[other_slot].scores@[other].score,
{
    let places = candidates(slots, classifier.kind(), slots.len() as int);
    let item_id = classifier.entries()[wanted].item_id@;
    let (place, template) = choose|place: int, template: int| #[trigger]
        is_page_best(
            classifier.entries(),
            matches,
            item_id,
            place,
            template,
            matches.len() as int,
        ) && candidate.slot == slots[places[place]] && candidate.score
            == matches[place].scores@[template];
    candidates_are_bounded(slots, classifier.kind(), slots.len() as int);
    assert(0 <= places[place] < slots.len());
    page_bests_have_low_scores(
        classifier.entries(),
        matches,
        item_id,
        place,
        template,
        other_slot,
        other,
    );
}

} // verus!
