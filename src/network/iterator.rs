use vstd::prelude::*;

use crate::addr::Ipv4Addr;

verus! {

/// The addresses from `first` to `last`, both included, in increasing order; empty when
/// `first` comes after `last`.
pub open spec fn addr_range_v4(first: u32, last: u32) -> Seq<u32> {
    if first <= last {
        Seq::new((last - first + 1) as nat, |i: int| (first + i) as u32)
    } else {
        Seq::empty()
    }
}

/// A cursor over a closed range of IPv4 addresses.
pub struct NetworkIterator {
    current: Ipv4Addr,
    end: Ipv4Addr,
    finished: bool,
}

impl View for NetworkIterator {
    type V = Seq<u32>;

    /// The addresses that are still to come.
    closed spec fn view(&self) -> Seq<u32> {
        if self.finished {
            Seq::empty()
        } else {
            addr_range_v4(self.current@, self.end@)
        }
    }
}

impl NetworkIterator {
    #[verifier::type_invariant]
    spec fn inv(self) -> bool {
        !self.finished ==> self.current@ <= self.end@
    }

    /// A cursor over the addresses from `first` to `last`, both included.
    pub fn new(first: Ipv4Addr, last: Ipv4Addr) -> (r: Self)
        ensures
            r@ == addr_range_v4(first@, last@),
    {
        let finished = first.to_bits() > last.to_bits();
        NetworkIterator { current: first, end: last, finished }
    }

    /// Takes the next address of the range, or `None` once the range is spent.
    pub fn next(&mut self) -> (r: Option<Ipv4Addr>)
        ensures
            old(self)@.len() == 0 ==> r is None && final(self)@ == old(self)@,
            old(self)@.len() > 0 ==> r is Some && r->Some_0@ == old(self)@[0] && final(self)@
                == old(self)@.drop_first(),
    {
        proof { use_type_invariant(&*self); }
        if self.finished {
            return None;
        }
        let c = self.current;
        let cur = c.to_bits();
        let end = self.end.to_bits();
        if cur >= end {
            self.finished = true;
            proof {
                if cur == end {
                    assert(old(self)@.drop_first() =~= Seq::<u32>::empty());
                }
            }
        } else {
            self.current = Ipv4Addr::from_bits(cur + 1);
            assert(self@ =~= old(self)@.drop_first());
        }
        Some(c)
    }
}

} // verus!
