//! The completion candidates and the one that is selected among them.

use vstd::prelude::*;

verus! {

/// What a completion list is: the candidates in their order and the index of
/// the selected one, if one is selected.
pub struct Selection {
    pub candidates: Seq<Seq<char>>,
    pub selected: Option<int>,
}

impl Selection {
    /// The selected index, if there is one, is that of a candidate.
    pub open spec fn wf(self) -> bool {
        self.selected matches Some(i) ==> 0 <= i < self.candidates.len()
    }

    /// The index that a step down selects: the first one where none is
    /// selected, the first one again after the last.
    pub open spec fn below(self) -> int {
        match self.selected {
            Some(i) if i + 1 < self.candidates.len() => i + 1,
            _ => 0,
        }
    }

    /// The index that a step up selects: the last one where none is
    /// selected, the last one again before the first.
    pub open spec fn above(self) -> int {
        match self.selected {
            Some(i) if i > 0 => i - 1,
            _ => self.candidates.len() - 1,
        }
    }

    /// The list after a step down; unchanged where there is no candidate.
    pub open spec fn down(self) -> Selection {
        if self.candidates.len() == 0 {
            self
        } else {
            Selection { candidates: self.candidates, selected: Some(self.below()) }
        }
    }

    /// The list after a step up; unchanged where there is no candidate.
    pub open spec fn up(self) -> Selection {
        if self.candidates.len() == 0 {
            self
        } else {
            Selection { candidates: self.candidates, selected: Some(self.above()) }
        }
    }

    /// The selected candidate.
    pub open spec fn current(self) -> Option<Seq<char>> {
        match self.selected {
            Some(i) => Some(self.candidates[i]),
            None => None,
        }
    }

    /// The list after `count` steps down.
    pub open spec fn down_by(self, count: nat) -> Selection
        decreases count,
    {
        if count == 0 {
            self
        } else {
            self.down_by((count - 1) as nat).down()
        }
    }

    /// The list after `count` steps up.
    pub open spec fn up_by(self, count: nat) -> Selection
        decreases count,
    {
        if count == 0 {
            self
        } else {
            self.up().up_by((count - 1) as nat)
        }
    }
}

/// Steps keep the selection among the candidates.
pub proof fn lemma_steps_wf(list: Selection)
    requires
        list.wf(),
    ensures
        list.down().wf(),
        list.up().wf(),
{
}

/// Once a candidate is selected, a step up undoes a step down, and a step
/// down undoes a step up.
pub proof fn lemma_step_back(list: Selection)
    requires
        list.wf(),
        list.selected is Some,
    ensures
        list.down().up() == list,
        list.up().down() == list,
{
}

/// Once a candidate is selected, as many steps up as steps down before them
/// lead back to the same selection.
pub proof fn lemma_down_then_up(list: Selection, count: nat)
    requires
        list.wf(),
        list.selected is Some,
    ensures
        list.down_by(count).wf(),
        list.down_by(count).selected is Some,
        list.down_by(count).up_by(count) == list,
    decreases count,
{
    if count > 0 {
        let before = list.down_by((count - 1) as nat);
        lemma_down_then_up(list, (count - 1) as nat);
        lemma_step_back(before);
    }
}

/// A list of completion candidates that can be walked in a circle.
#[derive(Debug)]
pub struct Completions {
    data: Vec<String>,
    selected: Option<usize>,
}

impl View for Completions {
    type V = Selection;

    closed spec fn view(&self) -> Selection {
        Selection {
            candidates: self.data.deep_view(),
            selected: match self.selected {
                Some(i) => Some(i as int),
                None => None,
            },
        }
    }
}

/// The list of `data`, with none of them selected.
pub fn new(data: Vec<String>) -> (completions: Completions)
    ensures
        completions.wf(),
        completions@.candidates == data.deep_view(),
        completions@.selected is None,
{
    Completions { data, selected: None }
}

impl Completions {
    /// The selected index, if there is one, is that of a candidate.
    pub open spec fn wf(&self) -> bool {
        self@.wf()
    }

    /// Selects the candidate before the selected one, the last one where
    /// none or the first is selected, and returns it; `None` where there is
    /// no candidate.
    pub fn select_up(&mut self) -> (selected: Option<&str>)
        requires
            old(self).wf(),
        ensures
            final(self).wf(),
            final(self)@ == old(self)@.up(),
            selected is Some <==> old(self)@.candidates.len() > 0,
            selected matches Some(s) ==> Some(s@) == final(self)@.current(),
    {
        if self.data.is_empty() {
            None
        } else {
            let index = match self.selected {
                Some(i) if i > 0 => i - 1,
                _ => self.data.len() - 1,
            };
            self.selected = Some(index);
            Some(self.data[index].as_str())
        }
    }

    /// Selects the candidate after the selected one, the first one where
    /// none or the last is selected, and returns it; `None` where there is
    /// no candidate.
    pub fn select_down(&mut self) -> (selected: Option<&str>)
        requires
            old(self).wf(),
        ensures
            final(self).wf(),
            final(self)@ == old(self)@.down(),
            selected is Some <==> old(self)@.candidates.len() > 0,
            selected matches Some(s) ==> Some(s@) == final(self)@.current(),
    {
        if self.data.is_empty() {
            None
        } else {
            let index = match self.selected {
                Some(i) if i < self.data.len() - 1 => i + 1,
                _ => 0,
            };
            self.selected = Some(index);
            Some(self.data[index].as_str())
        }
    }

    /// The candidates.
    pub fn data(&self) -> (data: &Vec<String>)
        ensures
            data.deep_view() == self@.candidates,
    {
        &self.data
    }

    /// The index of the selected candidate.
    pub fn selected(&self) -> (selected: &Option<usize>)
        ensures
            match *selected {
                Some(i) => self@.selected == Some(i as int),
                None => self@.selected is None,
            },
    {
        &self.selected
    }
}

} // verus!
