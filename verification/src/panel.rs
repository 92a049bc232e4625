//! The presentation state: one mutable slot per configured command, keyed by
//! the command's raw string, owned exclusively by the single consumer of the
//! result channel. Workers never touch it; every change comes through
//! [`Panel::apply`] or [`Panel::clear_all`], and applying one result runs to
//! completion before the next is considered.

use crate::worker::CommandUpdate;
use vstd::prelude::*;

verus! {

/// One presentation slot: the configured command string it is keyed by and
/// the text it currently shows.
pub struct Slot {
    pub name: String,
    pub text: String,
}

/// Index of the first entry of `names` at or after position `i` that equals
/// `name`, or -1 when none does.
pub open spec fn first_match(names: Seq<Seq<char>>, name: Seq<char>, i: int) -> int
    decreases names.len() - i,
{
    if i < 0 || i >= names.len() {
        -1
    } else if names[i] == name {
        i
    } else {
        first_match(names, name, i + 1)
    }
}

/// The slot texts after one delivered result landed in slot `idx`: that
/// slot's text is overwritten wholly, every other slot is untouched, and an
/// `idx` outside the panel (no matching name) changes nothing.
pub open spec fn texts_after(texts: Seq<Seq<char>>, idx: int, text: Seq<char>) -> Seq<Seq<char>> {
    if 0 <= idx < texts.len() {
        texts.update(idx, text)
    } else {
        texts
    }
}

/// A match found from a non-negative start lies between that start and the
/// end of the names, and its name is the one sought.
proof fn lemma_first_match_bounds(names: Seq<Seq<char>>, name: Seq<char>, i: int)
    requires
        0 <= i,
    ensures
        first_match(names, name, i) == -1 || (i <= first_match(names, name, i) < names.len()
            && names[first_match(names, name, i)] == name),
    decreases names.len() - i,
{
    if i < names.len() && names[i] != name {
        lemma_first_match_bounds(names, name, i + 1);
    }
}

/// The slot texts after a whole sequence of deliveries, applied in arrival
/// order, each landing in the first slot its name matches.
pub open spec fn texts_after_all(
    names: Seq<Seq<char>>,
    texts: Seq<Seq<char>>,
    updates: Seq<(Seq<char>, Seq<char>)>,
) -> Seq<Seq<char>>
    decreases updates.len(),
{
    if updates.len() == 0 {
        texts
    } else {
        texts_after_all(
            names,
            texts_after(texts, first_match(names, updates.first().0, 0), updates.first().1),
            updates.drop_first(),
        )
    }
}

/// A slot in which no delivery of the sequence lands keeps its text.
proof fn lemma_slot_untouched(
    names: Seq<Seq<char>>,
    texts: Seq<Seq<char>>,
    updates: Seq<(Seq<char>, Seq<char>)>,
    idx: int,
)
    requires
        0 <= idx < texts.len(),
        forall|j: int|
            0 <= j < updates.len() ==> first_match(names, (#[trigger] updates[j]).0, 0) != idx,
    ensures
        texts_after_all(names, texts, updates)[idx] == texts[idx],
        texts_after_all(names, texts, updates).len() == texts.len(),
    decreases updates.len(),
{
    if updates.len() > 0 {
        let next = texts_after(texts, first_match(names, updates.first().0, 0), updates.first().1);
        assert(updates[0] == updates.first());
        assert(next[idx] == texts[idx]);
        assert(forall|j: int|
            0 <= j < updates.drop_first().len() ==> (#[trigger] updates.drop_first()[j])
                == updates[j + 1]);
        lemma_slot_untouched(names, next, updates.drop_first(), idx);
    }
}

/// Whichever delivery lands last in a slot determines the slot's final
/// text: if the k-th delivery of an arrival sequence lands in a slot and no
/// later delivery lands in that same slot, then after the whole sequence the
/// slot shows exactly the k-th delivery's text — whatever request each
/// delivery came from.
pub proof fn lemma_final_text_is_last_landed(
    names: Seq<Seq<char>>,
    texts: Seq<Seq<char>>,
    updates: Seq<(Seq<char>, Seq<char>)>,
    k: int,
)
    requires
        texts.len() == names.len(),
        0 <= k < updates.len(),
        first_match(names, updates[k].0, 0) >= 0,
        forall|j: int|
            k < j < updates.len() ==> first_match(names, (#[trigger] updates[j]).0, 0)
                != first_match(names, updates[k].0, 0),
    ensures
        texts_after_all(names, texts, updates)[first_match(names, updates[k].0, 0)]
            == updates[k].1,
    decreases updates.len(),
{
    let idx = first_match(names, updates[k].0, 0);
    lemma_first_match_bounds(names, updates[k].0, 0);
    assert(updates[0] == updates.first());
    let next = texts_after(texts, first_match(names, updates.first().0, 0), updates.first().1);
    assert(next.len() == texts.len());
    assert(forall|j: int|
        0 <= j < updates.drop_first().len() ==> (#[trigger] updates.drop_first()[j]) == updates[j
            + 1]);
    if k == 0 {
        assert(next[idx] == updates[0].1);
        lemma_slot_untouched(names, next, updates.drop_first(), idx);
    } else {
        lemma_final_text_is_last_landed(names, next, updates.drop_first(), k - 1);
        assert(updates.drop_first()[k - 1] == updates[k]);
    }
}

/// Results racing for one slot: whichever result is applied last determines
/// the slot's final text — a later delivery overwrites an earlier one
/// wholly, whatever request either came from.
pub proof fn lemma_last_delivery_wins(
    texts: Seq<Seq<char>>,
    idx: int,
    t1: Seq<char>,
    t2: Seq<char>,
)
    ensures
        texts_after(texts_after(texts, idx, t1), idx, t2) == texts_after(texts, idx, t2),
{
    if 0 <= idx < texts.len() {
        assert(texts_after(texts_after(texts, idx, t1), idx, t2) =~= texts_after(
            texts,
            idx,
            t2,
        ));
    }
}

/// The consumer's presentation state.
pub struct Panel {
    pub slots: Vec<Slot>,
}

impl Panel {
    /// The slot names, in configured order.
    pub open spec fn names(self) -> Seq<Seq<char>> {
        Seq::new(self.slots@.len(), |i: int| self.slots@[i].name@)
    }

    /// The slot texts, in configured order.
    pub open spec fn texts(self) -> Seq<Seq<char>> {
        Seq::new(self.slots@.len(), |i: int| self.slots@[i].text@)
    }

    /// The slot a result with this name lands in: the first slot whose name
    /// matches, or -1 when none does.
    pub open spec fn slot_of(self, name: Seq<char>) -> int {
        first_match(self.names(), name, 0)
    }

    /// One slot per configured command, in configured order, every text
    /// empty.
    pub fn new_for(commands: &Vec<String>) -> (p: Panel)
        ensures
            p.names() == commands.deep_view(),
            p.texts().len() == commands@.len(),
            forall|i: int| 0 <= i < p.texts().len() ==> (#[trigger] p.texts()[i]).len() == 0,
    {
        let n = commands.len();
        let mut slots: Vec<Slot> = Vec::new();
        let mut i: usize = 0;
        while i < n
            invariant
                n == commands@.len(),
                i <= n,
                slots@.len() == i,
                forall|k: int|
                    0 <= k < i as int ==> (#[trigger] slots@[k]).name@ == commands@[k]@
                        && slots@[k].text@.len() == 0,
            decreases n - i,
        {
            slots.push(Slot { name: commands[i].clone(), text: String::new() });
            i = i + 1;
        }
        let p = Panel { slots };
        proof {
            assert(p.names() =~= commands.deep_view());
        }
        p
    }

    /// Number of slots.
    pub fn len(&self) -> (n: usize)
        ensures
            n == self.slots@.len(),
    {
        self.slots.len()
    }

    /// Clears every slot's text to empty; the names and their order stay.
    /// The trigger path calls this before dispatching a new request,
    /// independent of any workers still in flight from a prior request.
    pub fn clear_all(&mut self)
        ensures
            final (self).names() == old(self).names(),
            final (self).texts().len() == old(self).texts().len(),
            forall|i: int|
                0 <= i < final (self).texts().len() ==> (#[trigger] final (self).texts()[i]).len()
                    == 0,
    {
        let n = self.slots.len();
        let mut cleared: Vec<Slot> = Vec::new();
        let mut i: usize = 0;
        while i < n
            invariant
                n == self.slots@.len(),
                i <= n,
                cleared@.len() == i,
                forall|k: int|
                    0 <= k < i as int ==> (#[trigger] cleared@[k]).name@ == self.slots@[k].name@
                        && cleared@[k].text@.len() == 0,
            decreases n - i,
        {
            cleared.push(Slot { name: self.slots[i].name.clone(), text: String::new() });
            i = i + 1;
        }
        let ghost before = self.names();
        self.slots = cleared;
        proof {
            assert(self.names() =~= before);
        }
    }

    /// Applies one delivered result: the first slot whose name equals the
    /// result's name takes the result's text wholly; every other slot is
    /// untouched; a result matching no slot is a silent no-op.
    pub fn apply(&mut self, update: &CommandUpdate)
        ensures
            final (self).names() == old(self).names(),
            final (self).texts() == texts_after(
                old(self).texts(),
                old(self).slot_of(update.name@),
                update.text@,
            ),
    {
        let n = self.slots.len();
        let mut out: Vec<Slot> = Vec::new();
        let mut i: usize = 0;
        let mut done: bool = false;
        while i < n
            invariant
                n == self.slots@.len(),
                i <= n,
                out@.len() == i,
                forall|k: int|
                    0 <= k < i as int ==> (#[trigger] out@[k]).name@ == self.slots@[k].name@,
                !done ==> first_match(self.names(), update.name@, 0) == first_match(
                    self.names(),
                    update.name@,
                    i as int,
                ),
                !done ==> forall|k: int|
                    0 <= k < i as int ==> (#[trigger] out@[k]).text@ == self.slots@[k].text@,
                done ==> 0 <= first_match(self.names(), update.name@, 0) < i as int,
                done ==> out@[first_match(self.names(), update.name@, 0)].text@ == update.text@,
                done ==> forall|k: int|
                    0 <= k < i as int && k != first_match(self.names(), update.name@, 0) ==> (
                    #[trigger] out@[k]).text@ == self.slots@[k].text@,
            decreases n - i,
        {
            let slot_matches = !done && self.slots[i].name == update.name;
            if slot_matches {
                proof {
                    assert(self.names()[i as int] == update.name@);
                    assert(first_match(self.names(), update.name@, i as int) == i as int);
                }
                out.push(Slot { name: self.slots[i].name.clone(), text: update.text.clone() });
                done = true;
            } else {
                proof {
                    if !done {
                        assert(self.names()[i as int] != update.name@);
                        assert(first_match(self.names(), update.name@, i as int) == first_match(
                            self.names(),
                            update.name@,
                            i as int + 1,
                        ));
                    }
                }
                out.push(
                    Slot { name: self.slots[i].name.clone(), text: self.slots[i].text.clone() },
                );
            }
            i = i + 1;
        }
        let ghost before_names = self.names();
        let ghost before_texts = self.texts();
        let ghost idx = self.slot_of(update.name@);
        self.slots = out;
        proof {
            assert(self.names() =~= before_names);
            assert(self.texts() =~= texts_after(before_texts, idx, update.text@));
        }
    }

    /// The text shown at a 0-based slot position; positional retrieval for
    /// shortcut-driven access. A position past the last slot yields nothing.
    pub fn get_text(&self, i: usize) -> (r: Option<&String>)
        ensures
            i < self.slots@.len() ==> (r matches Some(t) && t@ == self.texts()[i as int]),
            i >= self.slots@.len() ==> r is None,
    {
        if i < self.slots.len() {
            Some(&self.slots[i].text)
        } else {
            None
        }
    }
}

} // verus!
