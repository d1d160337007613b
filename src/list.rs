//! The list and the events that move the selection within it. No UI.
use std::collections::VecDeque;
use vstd::prelude::*;

verus! {

/// The mathematical state of a [`List`]: the rows above the selection (top row
/// first), the selected row, if any, and the rows below it (nearest row first).
pub struct ListModel<T> {
    pub capacity: nat,
    pub above: Seq<T>,
    pub selected: Option<T>,
    pub below: Seq<T>,
}

impl<T> ListModel<T> {
    /// The selected row as a sequence of zero or one element.
    pub open spec fn selected_seq(self) -> Seq<T> {
        match self.selected {
            Some(x) => seq![x],
            None => Seq::empty(),
        }
    }

    /// All visible rows, from top to bottom.
    pub open spec fn items(self) -> Seq<T> {
        self.above + self.selected_seq() + self.below
    }

    pub open spec fn len(self) -> nat {
        self.items().len()
    }

    pub open spec fn is_empty(self) -> bool {
        self.selected is None
    }

    /// Nothing is visible unless a row is selected, and the visible rows fit
    /// within the capacity.
    pub open spec fn wf(self) -> bool {
        &&& (self.selected is None ==> self.above.len() == 0 && self.below.len() == 0)
        &&& self.len() <= self.capacity
    }
}

/// How many rows a list of the given capacity shows after re-population
/// from `n` matches.
pub open spec fn shown_count(capacity: nat, n: nat) -> nat {
    if n < capacity {
        n
    } else {
        capacity
    }
}

/// How many rows stand above the selection after re-population with `shown`
/// rows, given whether the list was empty before and how many rows stood below
/// its selection: a list that was empty selects its best match, at the bottom;
/// otherwise the number of rows below the selection is kept where possible.
pub open spec fn above_after_update(was_empty: bool, below_len: nat, shown: nat) -> nat {
    if shown == 0 {
        0
    } else if was_empty {
        (shown - 1) as nat
    } else if below_len < shown {
        (shown - 1 - below_len) as nat
    } else {
        0
    }
}

/// `rows` shows the first `shown` matches, best match at the bottom, each row a
/// clone of its match.
pub open spec fn shows_reversed<T: Clone>(matches: Seq<T>, shown: nat, rows: Seq<T>) -> bool {
    &&& rows.len() == shown
    &&& shown <= matches.len()
    &&& forall|i: int|
        0 <= i < shown ==> cloned(matches[shown - 1 - i], #[trigger] rows[i])
}

/// `post` is the state of a list in state `pre` after it was re-populated from
/// `matches`.
pub open spec fn updated<T: Clone>(pre: ListModel<T>, post: ListModel<T>, matches: Seq<T>) -> bool {
    let shown = shown_count(pre.capacity, matches.len());
    &&& post.wf()
    &&& post.capacity == pre.capacity
    &&& shows_reversed(matches, shown, post.items())
    &&& post.above.len() == above_after_update(pre.is_empty(), pre.below.len(), shown)
    &&& (post.selected is None <==> shown == 0)
}

/// A list of items with a selection of one of them.
///
/// The rows above the selection are kept in the queue `above` (top row at the
/// front), the selected row in `selected` (absent only when the list is empty),
/// and the rows below it in the queue `below` (nearest row at the front).
/// For `above = [1, 2]`, `selected = Some(3)`, `below = [4, 5, 6]` the rows
/// read 1, 2, (3), 4, 5, 6.
pub struct List<T: Clone> {
    capacity: usize,
    above: VecDeque<T>,
    selected: Option<T>,
    below: VecDeque<T>,
}

impl<T: Clone> View for List<T> {
    type V = ListModel<T>;

    closed spec fn view(&self) -> ListModel<T> {
        ListModel {
            capacity: self.capacity as nat,
            above: self.above@,
            selected: self.selected,
            below: self.below@,
        }
    }
}

impl<T: Clone> List<T> {
    /// An empty list that shows at most `capacity` rows.
    pub fn new(capacity: usize) -> (r: Self)
        ensures
            r@.wf(),
            r@.capacity == capacity,
            r@.above.len() == 0,
            r@.selected is None,
            r@.below.len() == 0,
    {
        List { capacity, above: VecDeque::new(), selected: None, below: VecDeque::new() }
    }

    /// The visible rows from top to bottom, each a clone.
    pub fn items(&self) -> (r: Vec<T>)
        ensures
            r@.len() == self@.items().len(),
            forall|i: int| 0 <= i < r@.len() ==> cloned(self@.items()[i], #[trigger] r@[i]),
    {
        let mut r: Vec<T> = Vec::new();
        let mut i: usize = 0;
        while i < self.above.len()
            invariant
                i <= self.above@.len(),
                r@.len() == i,
                forall|j: int| 0 <= j < i ==> cloned(self.above@[j], #[trigger] r@[j]),
            decreases self.above@.len() - i,
        {
            r.push(self.above[i].clone());
            i = i + 1;
        }
        let ghost with_above = r@;
        if let Some(selected) = &self.selected {
            r.push(selected.clone());
        }
        assert(r@.len() == self@.above.len() + self@.selected_seq().len());
        assert forall|j: int| 0 <= j < r@.len() implies cloned(
            (self@.above + self@.selected_seq())[j],
            #[trigger] r@[j],
        ) by {
            if j < self@.above.len() {
                assert(r@[j] == with_above[j]);
            }
        }
        let ghost upper = r@;
        let mut i: usize = 0;
        while i < self.below.len()
            invariant
                i <= self.below@.len(),
                r@.len() == upper.len() + i,
                upper.len() == self@.above.len() + self@.selected_seq().len(),
                forall|j: int| 0 <= j < upper.len() ==> r@[j] == upper[j],
                forall|j: int|
                    0 <= j < upper.len() ==> cloned(
                        (self@.above + self@.selected_seq())[j],
                        #[trigger] upper[j],
                    ),
                forall|j: int|
                    0 <= j < i ==> cloned(self.below@[j], #[trigger] r@[upper.len() + j]),
            decreases self.below@.len() - i,
        {
            r.push(self.below[i].clone());
            i = i + 1;
        }
        assert forall|j: int| 0 <= j < r@.len() implies cloned(
            self@.items()[j],
            #[trigger] r@[j],
        ) by {
            if j >= upper.len() {
                assert(r@[upper.len() + (j - upper.len())] == r@[j]);
            } else {
                assert(r@[j] == upper[j]);
            }
        }
        r
    }

    /// The visible rows from top to bottom, each paired with whether it is the
    /// selected row, which stands at index `len_above()`.
    pub fn tagged_iter(&self) -> (r: Vec<(bool, T)>)
        ensures
            r@.len() == self@.items().len(),
            forall|i: int|
                0 <= i < r@.len() ==> {
                    &&& (#[trigger] r@[i]).0 == (i == self@.above.len())
                    &&& cloned(self@.items()[i], r@[i].1)
                },
    {
        let selected_index = self.len_above();
        let mut items = self.items();
        let ghost rows = items@;
        let ghost n = rows.len();
        // take the rows off the back, then turn the tagged rows round
        let mut reversed: Vec<(bool, T)> = Vec::new();
        while items.len() > 0
            invariant
                items@.len() + reversed@.len() == n,
                forall|j: int| 0 <= j < items@.len() ==> items@[j] == rows[j],
                forall|j: int|
                    0 <= j < reversed@.len() ==> #[trigger] reversed@[j] == (
                        n - 1 - j == selected_index,
                        rows[n - 1 - j],
                    ),
            decreases items@.len(),
        {
            let item = items.pop().unwrap();
            reversed.push((items.len() == selected_index, item));
        }
        let mut r: Vec<(bool, T)> = Vec::new();
        while reversed.len() > 0
            invariant
                r@.len() + reversed@.len() == n,
                forall|j: int|
                    0 <= j < reversed@.len() ==> #[trigger] reversed@[j] == (
                        n - 1 - j == selected_index,
                        rows[n - 1 - j],
                    ),
                forall|j: int|
                    0 <= j < r@.len() ==> #[trigger] r@[j] == (j == selected_index, rows[j]),
            decreases reversed@.len(),
        {
            let tagged = reversed.pop().unwrap();
            r.push(tagged);
        }
        r
    }

    pub fn capacity(&self) -> (r: usize)
        ensures
            r == self@.capacity,
    {
        self.capacity
    }

    /// The number of visible rows.
    pub fn len(&self) -> (r: usize)
        requires
            self@.wf(),
        ensures
            r == self@.len(),
    {
        let selected_len: usize = if self.selected.is_some() { 1 } else { 0 };
        self.above.len() + selected_len + self.below.len()
    }

    /// The number of rows above the selection, which is the selected row's index.
    pub fn len_above(&self) -> (r: usize)
        ensures
            r == self@.above.len(),
    {
        self.above.len()
    }

    pub fn is_empty(&self) -> (r: bool)
        requires
            self@.wf(),
        ensures
            r == self@.is_empty(),
            r == (self@.len() == 0),
    {
        self.selected.is_none()
    }

    /// The selected row.
    pub fn get_selected(&self) -> (r: &T)
        requires
            self@.selected is Some,
        ensures
            *r == self@.selected->0,
    {
        self.selected.as_ref().unwrap()
    }

    /// Re-populates the list from `matches`, which the caller has sorted best
    /// first. At most `capacity` of them are shown, the best at the bottom.
    /// A list that was empty selects the best match; otherwise as many rows as
    /// before stay below the selection, so that it keeps its place on screen,
    /// as far as there are enough matches for that.
    pub fn update(&mut self, matches: &[T])
        requires
            old(self)@.wf(),
        ensures
            updated(old(self)@, final(self)@, matches@),
            final(self)@.len() == shown_count(old(self)@.capacity, matches@.len()),
            matches@.len() == 0 ==> final(self)@.is_empty(),
    {
        let was_empty = self.selected.is_none();
        let below_len = self.below.len();
        let capacity = self.capacity;

        self.above.clear();
        self.below.clear();
        self.selected = None;

        let shown: usize = if matches.len() < capacity {
            matches.len()
        } else {
            capacity
        };
        if was_empty {
            // fill from the bottom, so that the best match is the last row
            let mut i: usize = shown;
            while i > 0
                invariant
                    i <= shown <= matches@.len(),
                    self.capacity == capacity,
                    self.selected is None,
                    self.below@.len() == 0,
                    self.above@.len() == shown - i,
                    forall|j: int|
                        0 <= j < shown - i ==> cloned(
                            matches@[shown - 1 - j],
                            #[trigger] self.above@[j],
                        ),
                decreases i,
            {
                i = i - 1;
                self.above.push_back(matches[i].clone());
            }
        } else {
            // keep as many rows below the selection as there were
            let kept: usize = if below_len < shown {
                below_len
            } else {
                shown
            };
            let mut i: usize = kept;
            while i > 0
                invariant
                    i <= kept <= shown <= matches@.len(),
                    self.capacity == capacity,
                    self.selected is None,
                    self.above@.len() == 0,
                    self.below@.len() == kept - i,
                    forall|j: int|
                        0 <= j < kept - i ==> cloned(
                            matches@[kept - 1 - j],
                            #[trigger] self.below@[j],
                        ),
                decreases i,
            {
                i = i - 1;
                self.below.push_back(matches[i].clone());
            }
            if below_len < shown {
                self.selected = Some(matches[below_len].clone());
                let mut i: usize = shown;
                while i > below_len + 1
                    invariant
                        below_len + 1 <= i <= shown <= matches@.len(),
                        kept == below_len,
                        self.capacity == capacity,
                        self.selected is Some,
                        cloned(matches@[below_len as int], self.selected->0),
                        self.below@.len() == kept,
                        forall|j: int|
                            0 <= j < kept ==> cloned(
                                matches@[kept - 1 - j],
                                #[trigger] self.below@[j],
                            ),
                        self.above@.len() == shown - i,
                        forall|j: int|
                            0 <= j < shown - i ==> cloned(
                                matches@[shown - 1 - j],
                                #[trigger] self.above@[j],
                            ),
                    decreases i,
                {
                    i = i - 1;
                    self.above.push_back(matches[i].clone());
                }
            }
        }
        let ghost filled = self@;
        proof {
            assert(shows_reversed(matches@, shown as nat, filled.items())) by {
                assert forall|i: int| 0 <= i < shown implies cloned(
                    matches@[shown - 1 - i],
                    #[trigger] filled.items()[i],
                ) by {
                    if i < filled.above.len() {
                    } else if filled.selected is Some && i == filled.above.len() {
                    } else {
                        let j = i - filled.above.len() - filled.selected_seq().len();
                        assert(filled.items()[i] == filled.below[j]);
                    }
                }
            }
        }

        if self.selected.is_none() {
            // select the top row of those that were filled in
            match self.below.pop_front() {
                Some(item_below) => {
                    self.selected = Some(item_below);
                },
                None => {
                    self.selected = self.above.pop_back();
                },
            }
            proof {
                assert(self@.items() =~= filled.items());
            }
        }
    }

    /// Moves the selection one row up; does nothing at the top row.
    pub fn up(&mut self)
        requires
            old(self)@.wf(),
        ensures
            final(self)@.wf(),
            final(self)@.capacity == old(self)@.capacity,
            final(self)@.items() == old(self)@.items(),
            old(self)@.above.len() == 0 ==> final(self)@ == old(self)@,
            old(self)@.above.len() > 0 ==> {
                &&& final(self)@.above == old(self)@.above.drop_last()
                &&& final(self)@.selected == Some(old(self)@.above.last())
                &&& final(self)@.below == seq![old(self)@.selected->0] + old(self)@.below
            },
    {
        if let Some(item_above) = self.above.pop_back() {
            let selected = self.selected.take().unwrap();
            self.below.push_front(selected);
            self.selected = Some(item_above);
            proof {
                assert(final(self)@.items() =~= old(self)@.items());
            }
        }
    }

    /// Moves the selection one row down; does nothing at the bottom row.
    pub fn down(&mut self)
        requires
            old(self)@.wf(),
        ensures
            final(self)@.wf(),
            final(self)@.capacity == old(self)@.capacity,
            final(self)@.items() == old(self)@.items(),
            old(self)@.below.len() == 0 ==> final(self)@ == old(self)@,
            old(self)@.below.len() > 0 ==> {
                &&& final(self)@.above == old(self)@.above.push(old(self)@.selected->0)
                &&& final(self)@.selected == Some(old(self)@.below[0])
                &&& final(self)@.below == old(self)@.below.drop_first()
            },
    {
        if let Some(item_below) = self.below.pop_front() {
            let selected = self.selected.take().unwrap();
            self.above.push_back(selected);
            self.selected = Some(item_below);
            proof {
                assert(final(self)@.items() =~= old(self)@.items());
            }
        }
    }
}

} // verus!
