//! Small pieces of pure application state: the stack of input modes the
//! key dispatcher consults, and the state of the tab bar.

use vstd::prelude::*;

verus! {

/// The three input modes of the interface.
#[derive(Clone, Copy, Debug, PartialEq, Eq, Structural)]
pub enum InputMode {
    Normal,
    Input,
    Select,
}

/// A stack of input modes: entering a mode pushes it, leaving restores the
/// one below. Starts with `Normal` at the bottom.
#[derive(Clone)]
pub struct Input {
    seq: Vec<InputMode>,
}

impl View for Input {
    type V = Seq<InputMode>;

    closed spec fn view(&self) -> Seq<InputMode> {
        self.seq@
    }
}

impl Input {
    /// A fresh stack holding only `Normal`.
    pub fn new() -> (r: Self)
        ensures
            r@ == seq![InputMode::Normal],
    {
        let mut seq: Vec<InputMode> = Vec::new();
        seq.push(InputMode::Normal);
        let r = Self { seq };
        proof {
            assert(r@ =~= seq![InputMode::Normal]);
        }
        r
    }

    /// The current mode: the top of the stack, if any.
    pub fn get(&self) -> (m: Option<InputMode>)
        ensures
            self@.len() == 0 ==> m is None,
            self@.len() > 0 ==> m == Some(self@.last()),
    {
        if self.seq.len() == 0 {
            None
        } else {
            Some(self.seq[self.seq.len() - 1])
        }
    }

    /// Enters a mode by pushing it on the stack.
    pub fn store(&mut self, mode: InputMode)
        ensures
            final(self)@ == old(self)@.push(mode),
    {
        self.seq.push(mode);
    }

    /// Leaves the current mode by popping it; an empty stack stays empty.
    pub fn restore(&mut self)
        ensures
            old(self)@.len() == 0 ==> final(self)@ == old(self)@,
            old(self)@.len() > 0 ==> final(self)@ == old(self)@.drop_last(),
    {
        let _ = self.seq.pop();
    }
}

/// The tab bar: its titles and which tab is selected.
pub struct TabsState {
    pub titles: Vec<String>,
    pub index: usize,
}

impl TabsState {
    /// A tab bar with the given titles, first tab selected.
    pub fn new(titles: Vec<String>) -> (r: TabsState)
        ensures
            r.titles == titles,
            r.index == 0,
    {
        TabsState { titles, index: 0 }
    }

    /// Selects the next tab, wrapping past the last one.
    pub fn next(&mut self)
        requires
            old(self).titles@.len() > 0,
            old(self).index < old(self).titles@.len(),
        ensures
            final(self).titles == old(self).titles,
            final(self).index == (old(self).index + 1) % (old(self).titles@.len() as int),
    {
        let n = self.titles.len();
        self.index = (self.index + 1) % n;
    }

    /// Selects the previous tab, wrapping before the first one.
    pub fn previous(&mut self)
        requires
            old(self).titles@.len() > 0,
        ensures
            final(self).titles == old(self).titles,
            old(self).index > 0 ==> final(self).index == old(self).index - 1,
            old(self).index == 0 ==> final(self).index == old(self).titles@.len() - 1,
    {
        if self.index > 0 {
            self.index = self.index - 1;
        } else {
            self.index = self.titles.len() - 1;
        }
    }
}

} // verus!
