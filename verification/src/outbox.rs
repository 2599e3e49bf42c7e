//! The packets a client is owed, in the order it is owed them.

use vstd::prelude::*;
use crate::s2c::{S2cPlayPacket, S2cView};
use crate::seqs::{lemma_views_push, views};

verus! {

/// The packets made for one client, and whether it still takes any: once
/// closed, an outbox ignores what it is handed.
pub struct Outbox {
    pub packets: Vec<S2cPlayPacket>,
    pub open: bool,
}

/// What an [`Outbox`] is in contracts.
#[verifier::ext_equal]
pub struct OutboxView {
    pub packets: Seq<S2cView>,
    pub open: bool,
}

impl View for Outbox {
    type V = OutboxView;

    open spec fn view(&self) -> OutboxView {
        OutboxView { packets: views(self.packets@), open: self.open }
    }
}

/// `p` as a sequence: one packet or none.
pub open spec fn optional(p: Option<S2cView>) -> Seq<S2cView> {
    match p {
        Some(p) => seq![p],
        None => Seq::empty(),
    }
}

/// The view of `p`, if there is one.
pub open spec fn view_of(p: Option<S2cPlayPacket>) -> Option<S2cView> {
    match p {
        Some(p) => Some(p@),
        None => None,
    }
}

impl OutboxView {
    /// The outbox after it was handed `p`.
    pub open spec fn emit(self, p: S2cView) -> OutboxView {
        if self.open {
            OutboxView { packets: self.packets.push(p), open: true }
        } else {
            self
        }
    }

    /// The outbox after it was handed the packets `ps`, one by one.
    pub open spec fn extend(self, ps: Seq<S2cView>) -> OutboxView {
        if self.open {
            OutboxView { packets: self.packets + ps, open: true }
        } else {
            self
        }
    }


    /// The outbox, closed.
    pub open spec fn close(self) -> OutboxView {
        OutboxView { packets: self.packets, open: false }
    }
}

/// Handing nothing over changes nothing.
pub proof fn lemma_extend_nothing(o: OutboxView)
    ensures
        o.extend(Seq::empty()) == o,
{
    assert(o.extend(Seq::empty()) =~= o);
}

/// Handing packets over one by one is handing them over at once.
pub proof fn lemma_extend_emit(o: OutboxView, ps: Seq<S2cView>, p: S2cView)
    ensures
        o.extend(ps).emit(p) == o.extend(ps.push(p)),
        o.emit(p) == o.extend(seq![p]),
{
    assert(o.extend(ps).emit(p) =~= o.extend(ps.push(p)));
    assert(o.emit(p) =~= o.extend(seq![p]));
}

/// Handing over two runs of packets is handing over their concatenation.
pub proof fn lemma_extend_extend(o: OutboxView, a: Seq<S2cView>, b: Seq<S2cView>)
    ensures
        o.extend(a).extend(b) == o.extend(a + b),
{
    assert(o.extend(a).extend(b) =~= o.extend(a + b));
}

impl Outbox {
    /// An open outbox with nothing in it.
    pub fn new() -> (r: Outbox)
        ensures
            r@ == (OutboxView { packets: Seq::empty(), open: true }),
    {
        let r = Outbox { packets: Vec::new(), open: true };
        assert(r@.packets =~= Seq::empty());
        r
    }

    /// Appends `p` if the outbox is open.
    pub fn emit(&mut self, p: S2cPlayPacket)
        ensures
            final(self)@ == old(self)@.emit(p@),
            final(self)@ == old(self)@.extend(seq![p@]),
    {
        proof {
            lemma_extend_emit(self@, Seq::empty(), p@);
        }
        if self.open {
            proof {
                lemma_views_push(self.packets@, p);
            }
            self.packets.push(p);
        }
    }

    /// Appends `p`, if there is one and the outbox is open.
    pub fn emit_some(&mut self, p: Option<S2cPlayPacket>)
        ensures
            final(self)@ == old(self)@.extend(optional(view_of(p))),
    {
        proof {
            lemma_extend_nothing(self@);
        }
        match p {
            Some(p) => self.emit(p),
            None => {},
        }
    }

    /// Closes the outbox: what it holds stays, what comes is ignored.
    pub fn close(&mut self)
        ensures
            final(self)@ == old(self)@.close(),
    {
        self.open = false;
    }
}

} // verus!
