use vstd::prelude::*;

verus! {

/// Cycles through the indices of a list of `len` items while retaining a
/// confirmed selection. The highlighted index moves with `next` and
/// `previous` and wraps around; `confirm_selection` makes it the selection.
///
/// The selector does not own the items: the caller keeps the item count
/// coherent with the list it renders.
#[derive(Debug)]
pub struct Selector {
    highlighted: Option<usize>,
    selection: Option<usize>,
    len: usize,
}

/// What the selector holds: the highlighted index, the confirmed selection
/// and the number of items.
pub struct SelectorView {
    pub highlighted: Option<usize>,
    pub selection: Option<usize>,
    pub len: usize,
}

/// The index after `i` among `len` items, wrapping to 0.
pub open spec fn next_index(i: usize, len: usize) -> usize {
    ((i + 1) % (len as int)) as usize
}

/// The index before `i` among `len` items, wrapping to the last.
pub open spec fn previous_index(i: usize, len: usize) -> usize {
    ((i + len - 1) % (len as int)) as usize
}

impl View for Selector {
    type V = SelectorView;

    closed spec fn view(&self) -> SelectorView {
        SelectorView { highlighted: self.highlighted, selection: self.selection, len: self.len }
    }
}

impl Default for Selector {
    fn default() -> (r: Self)
        ensures
            r@.highlighted == None::<usize>,
            r@.selection == None::<usize>,
            r@.len == 0,
    {
        Selector { highlighted: None, selection: None, len: 0 }
    }
}

impl Selector {
    /// A selector over `len` items, highlighting the first one if any, with
    /// nothing selected.
    pub fn with_len(len: usize) -> (r: Self)
        ensures
            r@.highlighted == (if len >= 1 { Some(0usize) } else { None }),
            r@.selection == None::<usize>,
            r@.len == len,
    {
        Selector { highlighted: if len >= 1 { Some(0) } else { None }, selection: None, len }
    }

    /// Changes the number of items and sets both the highlighted index and
    /// the selection to `selection`.
    pub fn resize(&mut self, new_len: usize, selection: Option<usize>)
        ensures
            final(self)@.highlighted == selection,
            final(self)@.selection == selection,
            final(self)@.len == new_len,
    {
        self.highlighted = selection;
        self.selection = selection;
        self.len = new_len;
    }

    /// Highlights the next item, wrapping from the last to the first.
    pub fn next(&mut self)
        ensures
            final(self)@.selection == old(self)@.selection,
            final(self)@.len == old(self)@.len,
            final(self)@.highlighted == (if old(self)@.len == 0 {
                old(self)@.highlighted
            } else {
                match old(self)@.highlighted {
                    Some(i) => Some(next_index(i, old(self)@.len)),
                    None => None,
                }
            }),
    {
        if self.len == 0 {
            return;
        }
        self.highlighted = match self.highlighted {
            Some(i) => Some(((i as u128 + 1) % (self.len as u128)) as usize),
            None => None,
        };
    }

    /// Highlights the previous item, wrapping from the first to the last.
    pub fn previous(&mut self)
        ensures
            final(self)@.selection == old(self)@.selection,
            final(self)@.len == old(self)@.len,
            final(self)@.highlighted == (if old(self)@.len == 0 {
                old(self)@.highlighted
            } else {
                match old(self)@.highlighted {
                    Some(i) => Some(previous_index(i, old(self)@.len)),
                    None => None,
                }
            }),
    {
        if self.len == 0 {
            return;
        }
        self.highlighted = match self.highlighted {
            Some(i) => Some(((i as u128 + self.len as u128 - 1) % (self.len as u128)) as usize),
            None => None,
        };
    }

    /// Makes the highlighted index the selection.
    pub fn confirm_selection(&mut self)
        ensures
            final(self)@.selection == old(self)@.highlighted,
            final(self)@.highlighted == old(self)@.highlighted,
            final(self)@.len == old(self)@.len,
    {
        self.selection = self.highlighted;
    }

    /// Highlights item `index` if there is such an item.
    pub fn select(&mut self, index: usize)
        ensures
            final(self)@.highlighted == (if index < old(self)@.len {
                Some(index)
            } else {
                old(self)@.highlighted
            }),
            final(self)@.selection == old(self)@.selection,
            final(self)@.len == old(self)@.len,
    {
        if index < self.len {
            self.highlighted = Some(index);
        }
    }

    /// The confirmed selection.
    pub fn selected(&self) -> (r: Option<usize>)
        ensures
            r == self@.selection,
    {
        self.selection
    }

    /// The highlighted index, which the rendered list marks.
    pub fn highlighted(&self) -> (r: Option<usize>)
        ensures
            r == self@.highlighted,
    {
        self.highlighted
    }
}

/// Moving to the previous index undoes moving to the next one.
pub proof fn lemma_previous_undoes_next(i: usize, len: usize)
    requires
        i < len,
    ensures
        next_index(i, len) < len,
        previous_index(next_index(i, len), len) == i,
{
    let n = next_index(i, len);
    if i + 1 < len {
        assert(n == i + 1) by (nonlinear_arith)
            requires n == ((i + 1) % (len as int)) as usize, i + 1 < len;
        assert(((i + 1 + len - 1) % (len as int)) == i) by (nonlinear_arith)
            requires i < len, len > 0;
    } else {
        assert(n == 0) by (nonlinear_arith)
            requires n == ((i + 1) % (len as int)) as usize, i + 1 == len;
        assert(((0 + len - 1) % (len as int)) == i) by (nonlinear_arith)
            requires i + 1 == len, len > 0;
    }
}

/// Moving to the next index undoes moving to the previous one.
pub proof fn lemma_next_undoes_previous(i: usize, len: usize)
    requires
        i < len,
    ensures
        previous_index(i, len) < len,
        next_index(previous_index(i, len), len) == i,
{
    let p = previous_index(i, len);
    if i > 0 {
        assert(p == i - 1) by (nonlinear_arith)
            requires p == ((i + len - 1) % (len as int)) as usize, 0 < i < len;
        assert(((i - 1 + 1) % (len as int)) == i) by (nonlinear_arith)
            requires 0 < i < len;
    } else {
        assert(p == len - 1) by (nonlinear_arith)
            requires p == ((i + len - 1) % (len as int)) as usize, i == 0, len > 0;
        assert(((len - 1 + 1) % (len as int)) == 0) by (nonlinear_arith)
            requires len > 0;
    }
}

/// The index reached from `i` after `k` moves to the next index.
pub open spec fn advance(i: usize, len: usize, k: nat) -> usize
    decreases k,
{
    if k == 0 {
        i
    } else {
        next_index(advance(i, len, (k - 1) as nat), len)
    }
}

/// Moving `k` times to the next index from index 0 reaches index `k`, while
/// `k < len`, and `len` moves come back to index 0.
pub proof fn lemma_cycle_forward(len: usize, k: nat)
    requires
        0 < len,
        k <= len,
    ensures
        advance(0, len, k) == (if k < len { k as usize } else { 0usize }),
    decreases k,
{
    if k > 0 {
        lemma_cycle_forward(len, (k - 1) as nat);
        let prev = advance(0, len, (k - 1) as nat);
        assert(prev == (k - 1) as usize);
        if k < len {
            assert(((prev + 1) % (len as int)) == k) by (nonlinear_arith)
                requires prev + 1 == k, k < len;
        } else {
            assert(((prev + 1) % (len as int)) == 0) by (nonlinear_arith)
                requires prev + 1 == len, len > 0;
        }
    }
}

} // verus!
