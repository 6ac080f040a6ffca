//! The order in which templates are tried on a slot.
use vstd::prelude::*;

use crate::item::{ItemKind, StratagemCategory};
use crate::template_search::{
    all_offsets, every_place_is_tried, excluding, first_offsets, initial_offsets, is_half,
    neighboring_icon_sizes, offsets_excluding, places_surround_the_middle, search_offsets,
    sizes_differ_by_one, sizes_next_to, ProfileKey, SearchLayer, StratagemCategoryCandidates,
};

verus! {

/// Templates to score, in addition to what was scored before.
#[derive(Debug)]
pub struct SearchOrder {
    /// The sizes of the icons.
    pub icon_sizes: Vec<u32>,
    /// The places to put each icon, relative to the center.
    pub offsets: Vec<(i32, i32)>,
    /// Only stratagems of these categories count.
    pub categories: StratagemCategoryCandidates,
    /// What was scored before is forgotten.
    pub fresh: bool,
}

/// How a search goes on.
#[derive(Debug)]
pub enum SearchStep {
    Score(SearchOrder),
    /// A template was accepted.
    Found { deepest_layer: SearchLayer, all_category_fallback: bool },
    /// No template was accepted.
    NotFound { all_category_fallback: bool },
}

/// The search for the item of a slot.
#[derive(Clone, Copy, Debug)]
pub struct TemplateSearch {
    /// The templates at their nominal size.
    pub key: ProfileKey,
    pub categories: StratagemCategoryCandidates,
    pub layer: SearchLayer,
    /// All categories are tried, after the likely ones were not accepted.
    pub all_category_fallback: bool,
}

/// The icon sizes of a layer: the nominal one, and its neighbors in the last layer.
pub open spec fn layer_sizes(key: ProfileKey, layer: SearchLayer) -> Seq<u32> {
    if layer == SearchLayer::Scale {
        sizes_next_to(
            key.icon_size as int,
            if key.canvas_w < key.canvas_h {
                key.canvas_w as int
            } else {
                key.canvas_h as int
            },
        )
    } else {
        seq![key.icon_size]
    }
}

/// The places of a layer: the central ones first, then the others around them, then all.
pub open spec fn layer_offsets(key: ProfileKey, layer: SearchLayer) -> Seq<(i32, i32)> {
    let first = first_offsets(
        is_half(key.canvas_w as int, key.icon_size as int),
        is_half(key.canvas_h as int, key.icon_size as int),
    );
    match layer {
        SearchLayer::Initial => first,
        SearchLayer::Translation => excluding(search_offsets(), first),
        SearchLayer::Scale => search_offsets(),
    }
}

impl TemplateSearch {
    /// What the search asks for in its state.
    pub open spec fn is_order(self, order: SearchOrder) -> bool {
        &&& order.icon_sizes@ == layer_sizes(self.key, self.layer)
        &&& order.offsets@ == layer_offsets(self.key, self.layer)
        &&& order.categories == if self.all_category_fallback {
            StratagemCategoryCandidates::All
        } else {
            self.categories
        }
        &&& order.fresh == (self.layer == SearchLayer::Initial)
    }

    /// How many orders are still to come at most.
    pub open spec fn orders_left(self) -> int {
        (match self.layer {
            SearchLayer::Initial => 2int,
            SearchLayer::Translation => 1,
            SearchLayer::Scale => 0,
        }) + if !self.all_category_fallback && self.categories != StratagemCategoryCandidates::All {
            3int
        } else {
            0
        }
    }

    fn order(&self) -> (order: SearchOrder)
        ensures
            self.is_order(order),
    {
        let key = self.key;
        let first = initial_offsets(key.canvas_w, key.canvas_h, key.icon_size);
        let offsets = match self.layer {
            SearchLayer::Initial => first,
            SearchLayer::Translation => offsets_excluding(&all_offsets(), &first),
            SearchLayer::Scale => all_offsets(),
        };
        let icon_sizes = if self.layer == SearchLayer::Scale {
            let most = if key.canvas_w < key.canvas_h {
                key.canvas_w
            } else {
                key.canvas_h
            };
            neighboring_icon_sizes(key.icon_size, most)
        } else {
            let mut nominal: Vec<u32> = Vec::new();
            nominal.push(key.icon_size);
            assert(nominal@ =~= seq![key.icon_size]);
            nominal
        };
        SearchOrder {
            icon_sizes,
            offsets,
            categories: if self.all_category_fallback {
                StratagemCategoryCandidates::All
            } else {
                self.categories
            },
            fresh: self.layer == SearchLayer::Initial,
        }
    }

    /// Starts with the nominal size at the center. Only stratagems have categories.
    pub fn new(key: ProfileKey, likely: StratagemCategoryCandidates) -> (started: (
        Self,
        SearchOrder,
    ))
        ensures
            started.0 == (TemplateSearch {
                key,
                categories: if key.kind == ItemKind::Stratagem {
                    likely
                } else {
                    StratagemCategoryCandidates::All
                },
                layer: SearchLayer::Initial,
                all_category_fallback: false,
            }),
            started.0.is_order(started.1),
    {
        let search = TemplateSearch {
            key,
            categories: if key.kind == ItemKind::Stratagem {
                likely
            } else {
                StratagemCategoryCandidates::All
            },
            layer: SearchLayer::Initial,
            all_category_fallback: false,
        };
        let order = search.order();
        (search, order)
    }

    /// The state after scores of which none was accepted, if the search goes on.
    pub open spec fn next(self) -> Option<TemplateSearch> {
        match self.layer {
            SearchLayer::Initial => Some(
                TemplateSearch { layer: SearchLayer::Translation, ..self },
            ),
            SearchLayer::Translation => Some(TemplateSearch { layer: SearchLayer::Scale, ..self }),
            SearchLayer::Scale => if !self.all_category_fallback && self.categories
                != StratagemCategoryCandidates::All {
                Some(
                    TemplateSearch {
                        layer: SearchLayer::Initial,
                        all_category_fallback: true,
                        ..self
                    },
                )
            } else {
                None
            },
        }
    }

    /// Takes note whether one of the scores was accepted.
    pub fn step(&mut self, accepted: bool) -> (step: SearchStep)
        ensures
            if accepted {
                &&& *final(self) == *old(self)
                &&& step == (SearchStep::Found {
                    deepest_layer: if old(self).all_category_fallback {
                        SearchLayer::Scale
                    } else {
                        old(self).layer
                    },
                    all_category_fallback: old(self).all_category_fallback,
                })
            } else {
                match old(self).next() {
                    Some(after) => *final(self) == after && (step matches SearchStep::Score(order)
                        && after.is_order(order)),
                    None => *final(self) == *old(self) && step == (SearchStep::NotFound {
                        all_category_fallback: old(self).all_category_fallback,
                    }),
                }
            },
    {
        if accepted {
            return SearchStep::Found {
                deepest_layer: if self.all_category_fallback {
                    SearchLayer::Scale
                } else {
                    self.layer
                },
                all_category_fallback: self.all_category_fallback,
            };
        }
        match self.layer {
            SearchLayer::Initial => {
                self.layer = SearchLayer::Translation;
            },
            SearchLayer::Translation => {
                self.layer = SearchLayer::Scale;
            },
            SearchLayer::Scale => {
                if self.all_category_fallback || self.categories
                    == StratagemCategoryCandidates::All {
                    return SearchStep::NotFound {
                        all_category_fallback: self.all_category_fallback,
                    };
                }
                self.layer = SearchLayer::Initial;
                self.all_category_fallback = true;
            },
        }
        SearchStep::Score(self.order())
    }
}

/// Every search ends: a step leaves fewer orders to come.
pub proof fn searches_end(search: TemplateSearch)
    ensures
        0 <= search.orders_left() <= 5,
        search.next() matches Some(after) ==> after.orders_left() < search.orders_left(),
        search.next() is None <==> search.orders_left() == 0,
{
}

/// Before a slot is given up, every category is tried.
pub proof fn all_categories_are_tried(search: TemplateSearch)
    requires
        search.next() is None,
    ensures
        search.layer == SearchLayer::Scale,
        search.all_category_fallback || search.categories == StratagemCategoryCandidates::All,
{
}

/// A search comes to every size and place once before it turns to other categories: sizes off the
/// nominal one by one at most that fit the canvas, and places off the middle by one pixel at most.
pub proof fn every_size_and_place_is_tried(key: ProfileKey, size: u32, offset: (i32, i32))
    requires
        1 <= key.icon_size <= key.canvas_w,
        key.icon_size <= key.canvas_h,
    ensures
        ({
            let tried = |layer: SearchLayer| layer_sizes(key, layer).contains(size)
                && layer_offsets(key, layer).contains(offset);
            let first = tried(SearchLayer::Initial);
            let second = tried(SearchLayer::Translation);
            let third = tried(SearchLayer::Scale);
            &&& (first || second || third) <==> {
                &&& 1 <= size <= key.canvas_w && size <= key.canvas_h
                &&& -1 <= size - key.icon_size <= 1
                &&& -1 <= offset.0 <= 1
                &&& -1 <= offset.1 <= 1
            }
            &&& !(first && second) && !(first && third) && !(second && third)
            &&& first ==> size == key.icon_size
            &&& second ==> size == key.icon_size
            &&& third ==> size != key.icon_size
        }),
        layer_offsets(key, SearchLayer::Initial)[0] == (0i32, 0i32),
{
    let nominal = seq![key.icon_size];
    assert(nominal.contains(size) <==> size == key.icon_size) by {
        assert(nominal[0] == key.icon_size);
    }
    let x_half = is_half(key.canvas_w as int, key.icon_size as int);
    let y_half = is_half(key.canvas_h as int, key.icon_size as int);
    places_surround_the_middle(offset);
    every_place_is_tried(x_half, y_half, offset);
    sizes_differ_by_one(
        key.icon_size,
        if key.canvas_w < key.canvas_h {
            key.canvas_w
        } else {
            key.canvas_h
        },
        size,
    );
}

/// A search goes from the middle to the places around it and then to other sizes, with the likely
/// categories first. Only where those were not all of them, it starts again with all.
pub proof fn searches_go_on_in_order(search: TemplateSearch)
    requires
        search.layer == SearchLayer::Initial,
    ensures
        search.next() is Some,
        search.next()->0.next() is Some,
        ({
            let second = search.next()->0;
            let third = second.next()->0;
            &&& second.layer == SearchLayer::Translation && third.layer == SearchLayer::Scale
            &&& second.key == search.key && third.key == search.key
            &&& second.categories == search.categories && third.categories == search.categories
            &&& second.all_category_fallback == search.all_category_fallback
            &&& third.all_category_fallback == search.all_category_fallback
            &&& third.next() is Some <==> !search.all_category_fallback && search.categories
                != StratagemCategoryCandidates::All
            &&& third.next() is Some ==> third.next()->0 == (TemplateSearch {
                all_category_fallback: true,
                ..search
            })
        }),
{
}

/// What is scored in a state counts for the likely categories, and for every category once those
/// were not accepted. Only the first order of a round starts afresh.
pub proof fn orders_admit_the_likely_categories(
    search: TemplateSearch,
    order: SearchOrder,
    category: StratagemCategory,
)
    requires
        search.is_order(order),
    ensures
        order.categories.admits(category) <==> search.all_category_fallback || (
        match search.categories {
            StratagemCategoryCandidates::One(first) => category == first,
            StratagemCategoryCandidates::Two(first, second) => category == first || category
                == second,
            StratagemCategoryCandidates::All => true,
        }),
        order.fresh <==> search.layer == SearchLayer::Initial,
{
}

} // verus!
