//! A last-in, first-out stack of values with a height counter.
use vstd::prelude::*;

use crate::memory::data::{DataView, InnerData};

verus! {

/// A stack of values; `head` always equals the number of values held.
#[derive(Debug)]
pub struct Stack {
    data: Vec<InnerData>,
    head: usize,
}

impl View for Stack {
    type V = Seq<DataView>;

    closed spec fn view(&self) -> Seq<DataView> {
        self.data@.map_values(|v: InnerData| v@)
    }
}

impl Stack {
    #[verifier::type_invariant]
    spec fn counted(self) -> bool {
        self.head == self.data@.len()
    }

    /// An empty stack.
    pub fn new() -> (r: Stack)
        ensures
            r@ == Seq::<DataView>::empty(),
    {
        let r = Stack { data: Vec::new(), head: 0 };
        proof {
            assert(r@ =~= Seq::<DataView>::empty());
        }
        r
    }

    /// Puts a value on top.
    pub fn push(&mut self, value: InnerData)
        ensures
            final(self)@ == old(self)@.push(value@),
    {
        let mut taken = Stack::new();
        std::mem::swap(self, &mut taken);
        proof {
            use_type_invariant(&taken);
        }
        let Stack { mut data, head } = taken;
        data.push(value);
        let height = data.len();
        proof {
            assert(height == head + 1);
        }
        *self = Stack { data, head: height };
        proof {
            assert(self@ =~= old(self)@.push(value@));
        }
    }

    /// Takes the top value off; `None` on an empty stack.
    pub fn pop(&mut self) -> (r: Option<InnerData>)
        ensures
            old(self)@.len() == 0 ==> r is None && final(self)@ == old(self)@,
            old(self)@.len() > 0 ==> r is Some && r->Some_0@ == old(self)@.last()
                && final(self)@ == old(self)@.drop_last(),
    {
        let mut taken = Stack::new();
        std::mem::swap(self, &mut taken);
        proof {
            use_type_invariant(&taken);
        }
        let Stack { mut data, head } = taken;
        let r = match data.pop() {
            Some(value) => {
                *self = Stack { data, head: head - 1 };
                Some(value)
            },
            None => {
                *self = Stack { data, head };
                None
            },
        };
        proof {
            if old(self)@.len() > 0 {
                assert(self@ =~= old(self)@.drop_last());
            } else {
                assert(self@ =~= old(self)@);
            }
        }
        r
    }

    /// The values, bottom first.
    pub fn data(&self) -> (r: &[InnerData])
        ensures
            r@.map_values(|v: InnerData| v@) == self@,
    {
        self.data.as_slice()
    }

    /// The number of values held.
    pub fn head(&self) -> (r: usize)
        ensures
            r == self@.len(),
    {
        proof {
            use_type_invariant(self);
        }
        self.head
    }

    /// The top value.
    pub fn top(&self) -> (r: &InnerData)
        requires
            self@.len() > 0,
        ensures
            r@ == self@.last(),
    {
        proof {
            use_type_invariant(self);
        }
        &self.data[self.head - 1]
    }
}

/// The stack after pushing each value of `vs` in turn.
pub open spec fn push_all(s: Seq<DataView>, vs: Seq<DataView>) -> Seq<DataView>
    decreases vs.len(),
{
    if vs.len() == 0 {
        s
    } else {
        push_all(s, vs.drop_last()).push(vs.last())
    }
}

/// Pops `n` times: the values in the order they come off, and the stack
/// that is left.
pub open spec fn pop_n(s: Seq<DataView>, n: nat) -> (Seq<DataView>, Seq<DataView>)
    decreases n,
{
    if n == 0 || s.len() == 0 {
        (Seq::empty(), s)
    } else {
        let rest = pop_n(s.drop_last(), (n - 1) as nat);
        (seq![s.last()] + rest.0, rest.1)
    }
}

/// `vs` last to first.
pub open spec fn reversed(vs: Seq<DataView>) -> Seq<DataView> {
    Seq::new(vs.len(), |k: int| vs[vs.len() - 1 - k])
}

/// Last in, first out: after pushing `v1, ..., vn` onto a stack, `n` pops
/// give `vn, ..., v1` and leave the stack as it was.
pub proof fn lemma_lifo(s: Seq<DataView>, vs: Seq<DataView>)
    ensures
        pop_n(push_all(s, vs), vs.len()) == (reversed(vs), s),
        push_all(s, vs).len() == s.len() + vs.len(),
    decreases vs.len(),
{
    if vs.len() > 0 {
        let init = vs.drop_last();
        lemma_lifo(s, init);
        let pushed = push_all(s, vs);
        assert(pushed.drop_last() =~= push_all(s, init));
        assert(reversed(vs) =~= seq![vs.last()] + reversed(init));
    } else {
        assert(reversed(vs) =~= Seq::<DataView>::empty());
    }
}

} // verus!
