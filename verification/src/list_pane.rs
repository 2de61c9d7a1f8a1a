//! The state of one list panel: the query typed into its search box, the
//! rows it shows (positions in its table, in display order) and the
//! selected position among those rows. How a panel filters and sorts its
//! rows is the window's business: it hands the rows over once computed.

use vstd::prelude::*;
use vstd::view::View as _;

use crate::ui::View;

verus! {

/// One panel's list: query, rows shown and selection.
#[derive(Debug)]
pub struct ListState {
    /// What was typed into the panel's search box.
    pub query: String,
    /// The rows shown, as positions in the panel's table.
    pub order: Vec<usize>,
    /// Position inside `order` of the selected row.
    pub selected: Option<usize>,
}

/// A list with nothing typed, shown or selected.
pub open spec fn fresh_list(l: ListState) -> bool {
    &&& l.query@.len() == 0
    &&& l.order@.len() == 0
    &&& l.selected is None
}

/// The table position of the selected row: none when nothing is selected
/// or the selection lies past the rows shown.
pub open spec fn selected_row(l: ListState) -> Option<usize> {
    match l.selected {
        Some(p) => if p < l.order@.len() {
            Some(l.order@[p as int])
        } else {
            None
        },
        None => None,
    }
}

/// `l` after a click on the row at position `idx`: selected when such a
/// row is shown, else unchanged.
pub open spec fn select_at(l: ListState, idx: usize) -> ListState {
    if idx < l.order@.len() {
        ListState { selected: Some(idx), ..l }
    } else {
        l
    }
}

/// The first position of `item` in `order`.
pub open spec fn first_pos(order: Seq<usize>, item: usize) -> Option<int>
    decreases order.len(),
{
    if order.len() == 0 {
        None
    } else if order.last() == item && first_pos(order.drop_last(), item) is None {
        Some(order.len() - 1)
    } else {
        first_pos(order.drop_last(), item)
    }
}

/// `l` with the table row `item` selected where it is shown, else
/// unchanged.
pub open spec fn select_item(l: ListState, item: usize) -> ListState {
    match first_pos(l.order@, item) {
        Some(p) => ListState { selected: Some(p as usize), ..l },
        None => l,
    }
}

/// `l` showing `rows`: the selection is kept while it still points at a
/// shown row, else dropped.
pub open spec fn with_rows(l: ListState, rows: Vec<usize>) -> ListState {
    ListState {
        order: rows,
        selected: match l.selected {
            Some(p) => if p < rows@.len() {
                Some(p)
            } else {
                None
            },
            None => None,
        },
        ..l
    }
}

proof fn lemma_first_pos_bounds(order: Seq<usize>, item: usize)
    ensures
        first_pos(order, item) matches Some(p) ==> 0 <= p < order.len() && order[p] == item,
        first_pos(order, item) is None ==> forall|k: int| 0 <= k < order.len() ==> order[k] != item,
    decreases order.len(),
{
    if order.len() > 0 {
        lemma_first_pos_bounds(order.drop_last(), item);
        assert forall|k: int| 0 <= k < order.len() - 1 implies order[k] == order.drop_last()[k] by {}
    }
}

impl ListState {
    /// A list with nothing typed, shown or selected.
    pub fn new() -> (r: ListState)
        ensures
            fresh_list(r),
    {
        ListState { query: String::new(), order: Vec::new(), selected: None }
    }

    /// The table position of the selected row; see [`selected_row`].
    pub fn selected_item(&self) -> (r: Option<usize>)
        ensures
            r == selected_row(*self),
    {
        match self.selected {
            Some(p) => if p < self.order.len() {
                Some(self.order[p])
            } else {
                None
            },
            None => None,
        }
    }

    /// A click on the row at position `idx`; see [`select_at`].
    pub fn select_index(&mut self, idx: usize)
        ensures
            *final(self) == select_at(*old(self), idx),
    {
        if idx < self.order.len() {
            self.selected = Some(idx);
        }
    }

    /// Select the table row `item` where it is shown; see [`select_item`].
    pub fn select_row(&mut self, item: usize)
        ensures
            *final(self) == select_item(*old(self), item),
    {
        let mut k: usize = 0;
        while k < self.order.len()
            invariant
                *self == *old(self),
                k <= self.order@.len(),
                forall|j: int| 0 <= j < k ==> self.order@[j] != item,
            decreases self.order.len() - k,
        {
            if self.order[k] == item {
                proof {
                    lemma_first_pos_prefix(self.order@, item, k as int);
                }
                self.selected = Some(k);
                return;
            }
            k = k + 1;
        }
        proof {
            lemma_first_pos_bounds(self.order@, item);
            if first_pos(self.order@, item) is Some {
                let p = first_pos(self.order@, item)->0;
                assert(self.order@[p] == item);
            }
        }
    }

    /// Show `rows`; see [`with_rows`].
    pub fn show_rows(&mut self, rows: Vec<usize>)
        ensures
            *final(self) == with_rows(*old(self), rows),
    {
        let keep = match self.selected {
            Some(p) => if p < rows.len() {
                Some(p)
            } else {
                None
            },
            None => None,
        };
        self.order = rows;
        self.selected = keep;
    }

    /// Replace the query typed into the panel's search box.
    pub fn set_query(&mut self, q: String)
        ensures
            *final(self) == (ListState { query: q, ..*old(self) }),
    {
        self.query = q;
    }
}

/// The first position of `item` is `k` when it sits at `k` and nowhere
/// before.
proof fn lemma_first_pos_prefix(order: Seq<usize>, item: usize, k: int)
    requires
        0 <= k < order.len(),
        order[k] == item,
        forall|j: int| 0 <= j < k ==> order[j] != item,
    ensures
        first_pos(order, item) == Some(k),
    decreases order.len(),
{
    if k < order.len() - 1 {
        let d = order.drop_last();
        assert forall|j: int| 0 <= j < k implies d[j] != item by {
            assert(d[j] == order[j]);
        }
        lemma_first_pos_prefix(d, item, k);
    } else {
        let d = order.drop_last();
        lemma_first_pos_bounds(d, item);
        if first_pos(d, item) is Some {
            let p = first_pos(d, item)->0;
            assert(d[p] == order[p]);
        }
    }
}

/// The kind of object a search hit is.
#[derive(Debug, Clone, Copy, PartialEq, Eq, Structural)]
pub enum HitKind {
    Person,
    Family,
    Event,
    Place,
    Source,
    Citation,
    Media,
    Note,
    Repository,
    Tag,
}

/// One row of the search panel: the kind of object and its position in
/// its table.
#[derive(Debug, Clone, Copy, PartialEq, Eq, Structural)]
pub struct SearchHit {
    pub kind: HitKind,
    pub index: usize,
}

/// The panel that lists objects of kind `k`.
pub open spec fn hit_view(k: HitKind) -> View {
    match k {
        HitKind::Person => View::Persons,
        HitKind::Family => View::Families,
        HitKind::Event => View::Events,
        HitKind::Place => View::Places,
        HitKind::Source => View::Sources,
        HitKind::Citation => View::Citations,
        HitKind::Media => View::Media,
        HitKind::Note => View::Notes,
        HitKind::Repository => View::Repositories,
        HitKind::Tag => View::Tags,
    }
}

/// The panel that lists objects of kind `k`; see [`hit_view`].
pub fn panel_of(k: HitKind) -> (v: View)
    ensures
        v == hit_view(k),
{
    match k {
        HitKind::Person => View::Persons,
        HitKind::Family => View::Families,
        HitKind::Event => View::Events,
        HitKind::Place => View::Places,
        HitKind::Source => View::Sources,
        HitKind::Citation => View::Citations,
        HitKind::Media => View::Media,
        HitKind::Note => View::Notes,
        HitKind::Repository => View::Repositories,
        HitKind::Tag => View::Tags,
    }
}

} // verus!
