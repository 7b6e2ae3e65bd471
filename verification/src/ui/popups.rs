use vstd::prelude::*;

verus! {

/// How a popup shows its text.
#[derive(Clone, Copy, Debug, PartialEq, Eq, Structural)]
pub enum PopupKind {
    Code,
    Text,
}

/// A set of popups, each known by a key, of which at most one is visible.
#[derive(Debug)]
pub struct Popups {
    popups: Vec<(usize, PopupKind)>,
    visible: Option<usize>,
}

/// The kind of each key after registering `pairs` in order (a key given
/// twice keeps its last kind).
pub open spec fn popup_kinds(pairs: Seq<(usize, PopupKind)>) -> Map<usize, PopupKind>
    decreases pairs.len(),
{
    if pairs.len() == 0 {
        Map::empty()
    } else {
        popup_kinds(pairs.drop_last()).insert(pairs.last().0, pairs.last().1)
    }
}

/// What a set of popups holds: the kind of each popup and the visible one.
pub struct PopupsView {
    pub kinds: Map<usize, PopupKind>,
    pub visible: Option<usize>,
}

/// The registered popups, each key once.
pub open spec fn table_map(table: Seq<(usize, PopupKind)>) -> Map<usize, PopupKind> {
    Map::new(
        |k: usize| exists|i: int| 0 <= i < table.len() && #[trigger] table[i].0 == k,
        |k: usize| table[choose|i: int| 0 <= i < table.len() && #[trigger] table[i].0 == k].1,
    )
}

/// Each key appears once in the table.
pub open spec fn keys_unique(table: Seq<(usize, PopupKind)>) -> bool {
    forall|i: int, j: int| 0 <= i < j < table.len() ==> table[i].0 != table[j].0
}

impl View for Popups {
    type V = PopupsView;

    closed spec fn view(&self) -> PopupsView {
        PopupsView { kinds: table_map(self.popups@), visible: self.visible }
    }
}

impl Popups {
    #[verifier::type_invariant]
    spec fn inv(self) -> bool {
        keys_unique(self.popups@)
    }

    /// The popups given by key and kind, none of them visible.
    pub fn new(popups: &[(usize, PopupKind)]) -> (r: Self)
        ensures
            r@.kinds == popup_kinds(popups@),
            r@.visible == None::<usize>,
    {
        let mut table: Vec<(usize, PopupKind)> = Vec::new();
        let mut i: usize = 0;
        while i < popups.len()
            invariant
                i <= popups@.len(),
                keys_unique(table@),
                table_map(table@) == popup_kinds(popups@.subrange(0, i as int)),
            decreases popups.len() - i,
        {
            let (key, kind) = popups[i];
            let ghost before = table@;
            let mut j: usize = 0;
            let mut found = false;
            while j < table.len()
                invariant
                    table@.len() == before.len(),
                    keys_unique(table@),
                    j <= table@.len(),
                    !found ==> table@ == before,
                    !found ==> forall|k: int| 0 <= k < j ==> table@[k].0 != key,
                    found ==> exists|k: int| 0 <= k < before.len() && before[k].0 == key && table@
                        == before.update(k, (key, kind)),
                decreases table.len() - j,
            {
                if !found && table[j].0 == key {
                    table.set(j, (key, kind));
                    found = true;
                    proof {
                        assert forall|a: int, b: int| 0 <= a < b < table@.len() implies table@[a].0
                            != table@[b].0 by {
                            assert(before[a].0 != before[b].0);
                        }
                    }
                }
                j += 1;
            }
            if !found {
                table.push((key, kind));
            }
            proof {
                let m = popup_kinds(popups@.subrange(0, i + 1));
                assert(popups@.subrange(0, i + 1).drop_last() =~= popups@.subrange(0, i as int));
                assert(popups@.subrange(0, i + 1).last() == (key, kind));
                if found {
                    let k = choose|k: int| 0 <= k < before.len() && before[k].0 == key && table@
                        == before.update(k, (key, kind));
                    assert(keys_unique(table@)) by {
                        assert forall|a: int, b: int| 0 <= a < b < table@.len() implies table@[a].0
                            != table@[b].0 by {
                            assert(before[a].0 != before[b].0);
                        }
                    }
                    lemma_table_update(before, k, kind);
                } else {
                    assert(keys_unique(table@)) by {
                        assert forall|a: int, b: int| 0 <= a < b < table@.len() implies table@[a].0
                            != table@[b].0 by {
                            if b < before.len() {
                                assert(before[a].0 != before[b].0);
                            }
                        }
                    }
                    lemma_table_push(before, key, kind);
                }
            }
            i += 1;
        }
        assert(popups@.subrange(0, popups@.len() as int) =~= popups@);
        Popups { popups: table, visible: None }
    }

    /// Makes `popup` the visible popup.
    pub fn show(&mut self, popup: usize)
        ensures
            final(self)@.visible == Some(popup),
            final(self)@.kinds == old(self)@.kinds,
    {
        proof {
            use_type_invariant(&*self);
        }
        self.visible = Some(popup);
    }

    /// Hides `popup` if it is the visible one, shows it otherwise.
    pub fn toggle_visible(&mut self, popup: usize)
        ensures
            final(self)@.visible == (if old(self)@.visible == Some(popup) {
                None
            } else {
                Some(popup)
            }),
            final(self)@.kinds == old(self)@.kinds,
    {
        if self.is_visible(popup) {
            self.hide_visible();
        } else {
            self.show(popup)
        }
    }

    /// Hides whatever popup is visible.
    pub fn hide_visible(&mut self)
        ensures
            final(self)@.visible == None::<usize>,
            final(self)@.kinds == old(self)@.kinds,
    {
        proof {
            use_type_invariant(&*self);
        }
        self.visible = None;
    }

    /// Whether some popup is visible.
    pub fn any_visible(&self) -> (r: bool)
        ensures
            r == (self@.visible is Some),
    {
        self.visible.is_some()
    }

    /// Whether `popup` is the visible popup.
    pub fn is_visible(&self, popup: usize) -> (r: bool)
        ensures
            r == (self@.visible == Some(popup)),
    {
        match self.visible {
            Some(v) => v == popup,
            None => false,
        }
    }

    /// How `popup` is to be rendered: its kind when it is the visible popup
    /// and is registered, nothing otherwise.
    pub fn visible_kind(&self, popup: usize) -> (r: Option<PopupKind>)
        ensures
            r == (if self@.visible == Some(popup) && self@.kinds.dom().contains(popup) {
                Some(self@.kinds[popup])
            } else {
                None
            }),
    {
        proof {
            use_type_invariant(self);
        }
        if !self.is_visible(popup) {
            return None;
        }
        let mut i: usize = 0;
        while i < self.popups.len()
            invariant
                i <= self.popups@.len(),
                self.visible == Some(popup),
                keys_unique(self.popups@),
                forall|k: int| 0 <= k < i ==> self.popups@[k].0 != popup,
            decreases self.popups.len() - i,
        {
            if self.popups[i].0 == popup {
                proof {
                    lemma_table_lookup(self.popups@, i as int);
                }
                return Some(self.popups[i].1);
            }
            i += 1;
        }
        None
    }
}

/// In a table of unique keys, the kind of the key at `i` is the kind at `i`.
pub proof fn lemma_table_lookup(table: Seq<(usize, PopupKind)>, i: int)
    requires
        keys_unique(table),
        0 <= i < table.len(),
    ensures
        table_map(table).dom().contains(table[i].0),
        table_map(table)[table[i].0] == table[i].1,
{
    let k = table[i].0;
    assert(table[i].0 == k);
    let c = choose|c: int| 0 <= c < table.len() && #[trigger] table[c].0 == k;
    if c != i {
        if c < i {
            assert(table[c].0 != table[i].0);
        } else {
            assert(table[i].0 != table[c].0);
        }
    }
}

/// Replacing the kind of a registered key updates the map.
pub proof fn lemma_table_update(table: Seq<(usize, PopupKind)>, k: int, kind: PopupKind)
    requires
        keys_unique(table),
        0 <= k < table.len(),
    ensures
        table_map(table.update(k, (table[k].0, kind))) == table_map(table).insert(table[k].0, kind),
{
    let t = table.update(k, (table[k].0, kind));
    assert(keys_unique(t)) by {
        assert forall|a: int, b: int| 0 <= a < b < t.len() implies t[a].0 != t[b].0 by {
            assert(table[a].0 != table[b].0);
        }
    }
    assert forall|key: usize| #[trigger] table_map(t).dom().contains(key) == table_map(table).insert(
        table[k].0,
        kind,
    ).dom().contains(key) by {
        if table_map(t).dom().contains(key) {
            let i = choose|i: int| 0 <= i < t.len() && #[trigger] t[i].0 == key;
            assert(table[i].0 == key);
        }
        if table_map(table).dom().contains(key) {
            let i = choose|i: int| 0 <= i < table.len() && #[trigger] table[i].0 == key;
            assert(t[i].0 == key);
        }
        if key == table[k].0 {
            assert(t[k].0 == key);
        }
    }
    assert forall|key: usize| #[trigger] table_map(t).dom().contains(key) implies table_map(t)[key]
        == table_map(table).insert(table[k].0, kind)[key] by {
        let i = choose|i: int| 0 <= i < t.len() && #[trigger] t[i].0 == key;
        lemma_table_lookup(t, i);
        if i != k {
            lemma_table_lookup(table, i);
        }
    }
    assert(table_map(t) =~= table_map(table).insert(table[k].0, kind));
}

/// Registering a new key adds it to the map.
pub proof fn lemma_table_push(table: Seq<(usize, PopupKind)>, key: usize, kind: PopupKind)
    requires
        keys_unique(table),
        forall|i: int| 0 <= i < table.len() ==> table[i].0 != key,
    ensures
        table_map(table.push((key, kind))) == table_map(table).insert(key, kind),
{
    let t = table.push((key, kind));
    assert(keys_unique(t)) by {
        assert forall|a: int, b: int| 0 <= a < b < t.len() implies t[a].0 != t[b].0 by {
            if b < table.len() {
                assert(table[a].0 != table[b].0);
            }
        }
    }
    assert forall|k: usize| #[trigger] table_map(t).dom().contains(k) == table_map(table).insert(
        key,
        kind,
    ).dom().contains(k) by {
        if table_map(t).dom().contains(k) {
            let i = choose|i: int| 0 <= i < t.len() && #[trigger] t[i].0 == k;
            if i < table.len() {
                assert(table[i].0 == k);
            }
        }
        if table_map(table).dom().contains(k) {
            let i = choose|i: int| 0 <= i < table.len() && #[trigger] table[i].0 == k;
            assert(t[i].0 == k);
        }
        if k == key {
            assert(t[table.len() as int].0 == k);
        }
    }
    assert forall|k: usize| #[trigger] table_map(t).dom().contains(k) implies table_map(t)[k]
        == table_map(table).insert(key, kind)[k] by {
        let i = choose|i: int| 0 <= i < t.len() && #[trigger] t[i].0 == k;
        lemma_table_lookup(t, i);
        if i < table.len() {
            lemma_table_lookup(table, i);
        }
    }
    assert(table_map(t) =~= table_map(table).insert(key, kind));
}

} // verus!
