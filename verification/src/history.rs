//! The shell's command history: bounded, duplicate-free in the sense that
//! re-entering a command moves it to the back, and clearable; disabling it
//! clears it too.

use vstd::prelude::*;

use crate::scan::find_first;
use crate::scan::lemma_find_first_props;
use crate::scan::lemma_find_first_at;
use crate::textfmt::str_eq;

verus! {

/// Most entries the history keeps; the oldest is evicted beyond this.
pub const HISTORY_LIMIT: usize = 64;

/// Recently entered command lines, newest last.
pub struct History {
    entries: Vec<String>,
    enabled: bool,
}

/// The duplicate test `push` applies to recorded lines.
pub open spec fn entry_is(cmd: Seq<char>) -> spec_fn(Seq<char>) -> bool {
    |e: Seq<char>| e == cmd
}

/// What `push` does to the recorded lines: an already-present copy of the
/// command moves away, the oldest line is evicted at the cap, and the
/// command lands at the back.
pub open spec fn spec_push(model: Seq<Seq<char>>, cmd: Seq<char>) -> Seq<Seq<char>> {
    let without = match find_first(model, entry_is(cmd)) {
        Some(k) => model.remove(k),
        None => model,
    };
    let trimmed = if without.len() >= HISTORY_LIMIT {
        without.drop_first()
    } else {
        without
    };
    trimmed.push(cmd)
}

impl History {
    /// The recorded lines, oldest first.
    pub closed spec fn model(&self) -> Seq<Seq<char>> {
        self.entries@.map_values(|s: String| s@)
    }

    pub closed spec fn is_on(&self) -> bool {
        self.enabled
    }

    pub open spec fn wf(&self) -> bool {
        &&& self.model().len() <= HISTORY_LIMIT
        &&& !self.is_on() ==> self.model().len() == 0
    }

    /// A fresh, enabled, empty history.
    pub fn new() -> (h: History)
        ensures
            h.wf(),
            h.is_on(),
            h.model().len() == 0,
    {
        History { entries: Vec::new(), enabled: true }
    }

    pub fn len(&self) -> (r: usize)
        ensures
            r == self.model().len(),
    {
        self.entries.len()
    }

    pub fn is_empty(&self) -> (r: bool)
        ensures
            r == (self.model().len() == 0),
    {
        self.entries.is_empty()
    }

    /// The `idx`-th recorded line, oldest first.
    pub fn entry(&self, idx: usize) -> (r: Option<String>)
        ensures
            idx < self.model().len() ==> r is Some && r.unwrap()@ == self.model()[idx as int],
            idx >= self.model().len() ==> r is None,
    {
        if idx < self.entries.len() {
            Some(self.entries[idx].clone())
        } else {
            None
        }
    }

    pub fn clear(&mut self)
        ensures
            final(self).wf(),
            final(self).model().len() == 0,
            final(self).is_on() == old(self).is_on(),
    {
        self.entries = Vec::new();
        proof {
            assert(self.model() =~= Seq::<Seq<char>>::empty());
        }
    }

    pub fn is_enabled(&self) -> (r: bool)
        ensures
            r == self.is_on(),
    {
        self.enabled
    }

    /// Turning recording off also clears what was recorded.
    pub fn set_enabled(&mut self, enabled: bool)
        requires
            old(self).wf(),
        ensures
            final(self).wf(),
            final(self).is_on() == enabled,
            enabled ==> final(self).model() == old(self).model(),
            !enabled ==> final(self).model().len() == 0,
    {
        self.enabled = enabled;
        if !enabled {
            self.clear();
        }
    }

    /// Flip recording; returns the new state.
    pub fn toggle_enabled(&mut self) -> (r: bool)
        requires
            old(self).wf(),
        ensures
            final(self).wf(),
            r == !old(self).is_on(),
            final(self).is_on() == r,
            !r ==> final(self).model().len() == 0,
    {
        let currently = self.enabled;
        self.set_enabled(!currently);
        !currently
    }

    /// Index of the recorded line equal to `cmd`, if any.
    fn find_entry(&self, cmd: &str) -> (r: Option<usize>)
        ensures
            match r {
                Some(j) => find_first(self.model(), entry_is(cmd@)) == Some(j as int) && j
                    < self.model().len(),
                None => find_first(self.model(), entry_is(cmd@)) is None,
            },
    {
        let n = self.entries.len();
        let mut i: usize = 0;
        while i < n
            invariant
                i <= n,
                n == self.entries@.len(),
                forall|k: int| 0 <= k < i ==> !entry_is(cmd@)((#[trigger] self.model()[k])),
            decreases n - i,
        {
            if str_eq(self.entries[i].as_str(), cmd) {
                proof {
                    lemma_find_first_at(self.model(), entry_is(cmd@), i as int);
                }
                return Some(i);
            }
            i = i + 1;
        }
        proof {
            lemma_find_first_props(self.model(), entry_is(cmd@));
        }
        None
    }

    /// Record a command line; disabled histories and empty lines record
    /// nothing.
    pub fn push(&mut self, cmd: &str)
        requires
            old(self).wf(),
        ensures
            final(self).wf(),
            final(self).is_on() == old(self).is_on(),
            !old(self).is_on() || cmd@.len() == 0 ==> *final(self) == *old(self),
            old(self).is_on() && cmd@.len() > 0 ==> final(self).model() == spec_push(
                old(self).model(),
                cmd@,
            ),
    {
        if !self.enabled {
            return ;
        }
        if cmd.is_empty() {
            return ;
        }
        let ghost pre = self.model();
        let dup: Option<usize> = self.find_entry(cmd);
        let ghost without_spec = match find_first(pre, entry_is(cmd@)) {
            Some(k) => pre.remove(k),
            None => pre,
        };
        match dup {
            Some(pos) => {
                self.entries.remove(pos);
                proof {
                    assert(self.model() =~= without_spec);
                }
            },
            None => {},
        }
        if self.entries.len() >= HISTORY_LIMIT {
            let ghost mid = self.model();
            self.entries.remove(0);
            proof {
                assert(self.model() =~= mid.drop_first());
            }
        }
        let owned: String = cmd.to_owned();
        let ghost trimmed = self.model();
        self.entries.push(owned);
        proof {
            assert(self.model() =~= trimmed.push(cmd@));
            assert(self.model() =~= spec_push(pre, cmd@));
        }
    }
}

} // verus!
