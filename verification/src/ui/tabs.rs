//! The list of tabs and which one is active.
use vstd::prelude::*;

verus! {

/// Tabs in opening order, one of them active.
pub struct TabManager<T> {
    tabs: Vec<T>,
    active_tab: usize,
    next_id: usize,
}

/// Abstract state of a [`TabManager`].
pub struct TabsModel<T> {
    pub tabs: Seq<T>,
    pub active: usize,
    pub next_id: usize,
}

impl<T> View for TabManager<T> {
    type V = TabsModel<T>;

    closed spec fn view(&self) -> TabsModel<T> {
        TabsModel { tabs: self.tabs@, active: self.active_tab, next_id: self.next_id }
    }
}

impl<T> TabsModel<T> {
    /// The active index names a tab (or is 0 when there are none).
    pub open spec fn wf(self) -> bool {
        self.active < self.tabs.len() || self.active == 0
    }
}

impl<T> TabManager<T> {
    pub fn new() -> (m: Self)
        ensures
            m@.tabs.len() == 0,
            m@.active == 0,
            m@.next_id == 1,
            m@.wf(),
    {
        TabManager { tabs: Vec::new(), active_tab: 0, next_id: 1 }
    }

    /// The id the next tab gets.
    pub fn next_id(&self) -> (id: usize)
        ensures
            id == self@.next_id,
    {
        self.next_id
    }

    /// Adds a tab opened with id `next_id()` and makes it active; returns that id.
    pub fn add_tab(&mut self, tab: T) -> (id: usize)
        requires
            old(self)@.next_id < usize::MAX,
        ensures
            id == old(self)@.next_id,
            final(self)@.tabs == old(self)@.tabs.push(tab),
            final(self)@.active == old(self)@.tabs.len(),
            final(self)@.next_id == old(self)@.next_id + 1,
            final(self)@.wf(),
    {
        let id = self.next_id;
        self.next_id = self.next_id + 1;
        self.tabs.push(tab);
        self.active_tab = self.tabs.len() - 1;
        id
    }

    /// Closes tab `index`; `false` when no tab is left. An index past the end closes
    /// nothing and answers `true`.
    pub fn close_tab(&mut self, index: usize) -> (any_left: bool)
        requires
            old(self)@.wf(),
        ensures
            final(self)@.wf(),
            final(self)@.next_id == old(self)@.next_id,
            index < old(self)@.tabs.len() ==> {
                &&& final(self)@.tabs == old(self)@.tabs.remove(index as int)
                &&& any_left == (old(self)@.tabs.len() > 1)
                &&& final(self)@.active == if any_left && old(self)@.active >= old(self)@.tabs.len() - 1 {
                    (old(self)@.tabs.len() - 2) as usize
                } else {
                    old(self)@.active
                }
            },
            index >= old(self)@.tabs.len() ==> any_left && final(self)@ == old(self)@,
    {
        if index < self.tabs.len() {
            self.tabs.remove(index);
            if self.tabs.len() == 0 {
                return false;
            }
            if self.active_tab >= self.tabs.len() {
                self.active_tab = self.tabs.len() - 1;
            }
            true
        } else {
            true
        }
    }

    pub fn active_tab(&self) -> (t: Option<&T>)
        ensures
            t == (if self@.active < self@.tabs.len() { Some(&self@.tabs[self@.active as int]) } else { None }),
    {
        if self.active_tab < self.tabs.len() {
            Some(&self.tabs[self.active_tab])
        } else {
            None
        }
    }

    pub fn active_tab_mut(&mut self) -> (t: Option<&mut T>)
        ensures
            t is Some <==> old(self)@.active < old(self)@.tabs.len(),
            t is Some ==> *t->0 == old(self)@.tabs[old(self)@.active as int] && final(self)@ == (TabsModel {
                tabs: old(self)@.tabs.update(old(self)@.active as int, *final(t->0)),
                ..old(self)@
            }),
            t is None ==> final(self)@ == old(self)@,
    {
        if self.active_tab < self.tabs.len() {
            Some(&mut self.tabs[self.active_tab])
        } else {
            None
        }
    }

    /// Tab `index`, for changing it.
    pub fn tab_mut(&mut self, index: usize) -> (t: Option<&mut T>)
        ensures
            t is Some <==> index < old(self)@.tabs.len(),
            t is Some ==> *t->0 == old(self)@.tabs[index as int] && final(self)@ == (TabsModel {
                tabs: old(self)@.tabs.update(index as int, *final(t->0)),
                ..old(self)@
            }),
            t is None ==> final(self)@ == old(self)@,
    {
        if index < self.tabs.len() {
            Some(&mut self.tabs[index])
        } else {
            None
        }
    }

    /// Makes tab `index` active when there is such a tab.
    pub fn set_active_tab(&mut self, index: usize)
        ensures
            final(self)@ == (TabsModel {
                active: if index < old(self)@.tabs.len() { index } else { old(self)@.active },
                ..old(self)@
            }),
    {
        if index < self.tabs.len() {
            self.active_tab = index;
        }
    }

    /// Activates the following tab, wrapping around.
    pub fn next_tab(&mut self)
        requires
            old(self)@.wf(),
        ensures
            final(self)@.wf(),
            final(self)@ == (TabsModel {
                active: if old(self)@.tabs.len() > 0 {
                    ((old(self)@.active + 1) % (old(self)@.tabs.len() as int)) as usize
                } else {
                    old(self)@.active
                },
                ..old(self)@
            }),
    {
        if self.tabs.len() > 0 {
            self.active_tab = (self.active_tab + 1) % self.tabs.len();
        }
    }

    /// Activates the preceding tab, wrapping around.
    pub fn prev_tab(&mut self)
        requires
            old(self)@.wf(),
            old(self)@.active + old(self)@.tabs.len() <= usize::MAX,
        ensures
            final(self)@.wf(),
            final(self)@ == (TabsModel {
                active: if old(self)@.tabs.len() > 0 {
                    ((old(self)@.active + old(self)@.tabs.len() - 1) % (old(self)@.tabs.len() as int)) as usize
                } else {
                    old(self)@.active
                },
                ..old(self)@
            }),
    {
        if self.tabs.len() > 0 {
            self.active_tab = (self.active_tab + self.tabs.len() - 1) % self.tabs.len();
        }
    }

    pub fn tab_count(&self) -> (n: usize)
        ensures
            n == self@.tabs.len(),
    {
        self.tabs.len()
    }

    pub fn tabs(&self) -> (t: &[T])
        ensures
            t@ == self@.tabs,
    {
        self.tabs.as_slice()
    }

    /// Closes the active tab (see [`TabManager::close_tab`]).
    pub fn close_active(&mut self) -> (any_left: bool)
        requires
            old(self)@.wf(),
        ensures
            final(self)@.wf(),
            old(self)@.active < old(self)@.tabs.len() ==> {
                &&& final(self)@.tabs == old(self)@.tabs.remove(old(self)@.active as int)
                &&& any_left == (old(self)@.tabs.len() > 1)
            },
            old(self)@.active >= old(self)@.tabs.len() ==> any_left && final(self)@ == old(self)@,
    {
        let a = self.active_tab;
        self.close_tab(a)
    }
}

/// Law: going to the next tab and back returns to the same tab.
pub proof fn law_tab_cycle(m: TabsModel<int>)
    requires
        m.wf(),
        m.tabs.len() > 0,
    ensures
        ({
            let n = m.tabs.len() as int;
            let next = (m.active + 1) % n;
            (next + n - 1) % n == m.active
        }),
{
    let n = m.tabs.len() as int;
    if m.active + 1 < n {
        vstd::arithmetic::div_mod::lemma_small_mod((m.active + 1) as nat, n as nat);
        vstd::arithmetic::div_mod::lemma_small_mod(m.active as nat, n as nat);
        vstd::arithmetic::div_mod::lemma_mod_add_multiples_vanish(m.active as int, n);
        assert(m.active + 1 + n - 1 == n + m.active);
    } else {
        vstd::arithmetic::div_mod::lemma_mod_self_0(n);
        vstd::arithmetic::div_mod::lemma_small_mod((n - 1) as nat, n as nat);
    }
}

} // verus!
