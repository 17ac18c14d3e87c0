//! The widget tree that code is generated from.
use vstd::prelude::*;

verus! {

/// A handler bound to one event of a widget: the message it sends and the
/// names given to the event's arguments.
pub struct Event {
    pub name: String,
    pub params: Vec<String>,
}

/// One widget of the tree: its type path (`gtk::Button`), the expressions
/// passed to its constructor, its properties as (property, value) pairs, its
/// events as (event, handler) pairs, and its children in order.
pub struct Widget {
    pub name: String,
    pub init_parameters: Vec<String>,
    pub properties: Vec<(String, String)>,
    pub events: Vec<(String, Event)>,
    pub children: Vec<Widget>,
}

impl Widget {
    /// The number of widgets in the tree rooted here.
    pub open spec fn size(self) -> nat
        decreases self, self.children@.len() + 1,
    {
        1 + self.children_size(self.children@.len() as int)
    }

    /// The number of widgets under the first `i` children.
    pub open spec fn children_size(self, i: int) -> nat
        decreases self, i,
    {
        if i <= 0 || i > self.children@.len() {
            0
        } else {
            self.children_size(i - 1) + self.children@[i - 1].size()
        }
    }

    /// The number of widgets in the tree, or `cap` where there are more.
    pub fn size_up_to(&self, cap: u64) -> (r: u64)
        ensures
            r as nat == if self.size() < cap { self.size() } else { cap as nat },
        decreases self,
    {
        if cap == 0 {
            return 0;
        }
        let len = self.children.len();
        let mut total: u64 = 1;
        let mut i: usize = 0;
        while i < len && total < cap
            invariant
                len == self.children@.len(),
                i <= len,
                0 < cap,
                total as nat == if 1 + self.children_size(i as int) < cap {
                    1 + self.children_size(i as int)
                } else {
                    cap as nat
                },
            decreases len - i,
        {
            let c = self.children[i].size_up_to(cap - total);
            total = total + c;
            i = i + 1;
        }
        proof {
            self.lemma_children_size_grows(i as int, len as int);
        }
        total
    }

    pub proof fn lemma_children_size_grows(self, i: int, j: int)
        requires
            0 <= i <= j <= self.children@.len(),
        ensures
            self.children_size(i) <= self.children_size(j),
        decreases j - i,
    {
        if i < j {
            self.lemma_children_size_grows(i, j - 1);
        }
    }
}

} // verus!
