use vstd::prelude::*;

verus! {

/// One step of an atomic write.
#[derive(Debug)]
pub enum WriteOp {
    /// Puts `value` under `key`, whatever was there.
    SetKey { key: Vec<u8>, value: Vec<u8> },
    /// Puts `value` under `key` if nothing is there; if something is, the
    /// whole write is refused.
    SetNx { key: Vec<u8>, value: Vec<u8> },
    /// Adds `member` to the sorted set `key` with `score`, or gives it that
    /// score if it is a member already.
    ZAdd { key: Vec<u8>, member: Vec<u8>, score: i64 },
    /// Takes `member` out of the sorted set `key`.
    ZRem { key: Vec<u8>, member: Vec<u8> },
}

/// What a `WriteOp` holds.
pub enum WriteOpView {
    SetKey { key: Seq<u8>, value: Seq<u8> },
    SetNx { key: Seq<u8>, value: Seq<u8> },
    ZAdd { key: Seq<u8>, member: Seq<u8>, score: i64 },
    ZRem { key: Seq<u8>, member: Seq<u8> },
}

impl View for WriteOp {
    type V = WriteOpView;

    open spec fn view(&self) -> WriteOpView {
        match self {
            WriteOp::SetKey { key, value } => WriteOpView::SetKey { key: key@, value: value@ },
            WriteOp::SetNx { key, value } => WriteOpView::SetNx { key: key@, value: value@ },
            WriteOp::ZAdd { key, member, score } => WriteOpView::ZAdd {
                key: key@,
                member: member@,
                score: *score,
            },
            WriteOp::ZRem { key, member } => WriteOpView::ZRem { key: key@, member: member@ },
        }
    }
}

/// The steps of one write that a backend applies wholly or not at all, in the
/// order in which they were added.
#[derive(Debug)]
pub struct AtomicWriteOperation {
    pub ops: Vec<WriteOp>,
}

impl View for AtomicWriteOperation {
    type V = Seq<WriteOpView>;

    open spec fn view(&self) -> Seq<WriteOpView> {
        Seq::new(self.ops@.len(), |i: int| self.ops@[i]@)
    }
}

impl AtomicWriteOperation {
    /// A write without steps.
    pub fn new() -> (tx: AtomicWriteOperation)
        ensures
            tx@ == Seq::<WriteOpView>::empty(),
    {
        let tx = AtomicWriteOperation { ops: Vec::new() };
        proof {
            assert(tx@ =~= Seq::<WriteOpView>::empty());
        }
        tx
    }

    fn push(&mut self, op: WriteOp)
        ensures
            final(self)@ == old(self)@.push(op@),
    {
        self.ops.push(op);
        proof {
            assert(self@ =~= old(self)@.push(op@));
        }
    }

    /// Adds a step that puts `value` under `key`.
    pub fn set(&mut self, key: Vec<u8>, value: Vec<u8>)
        ensures
            final(self)@ == old(self)@.push(WriteOpView::SetKey { key: key@, value: value@ }),
    {
        self.push(WriteOp::SetKey { key, value });
    }

    /// Adds a step that puts `value` under `key` and refuses the write if the
    /// key is taken.
    pub fn set_nx(&mut self, key: Vec<u8>, value: Vec<u8>)
        ensures
            final(self)@ == old(self)@.push(WriteOpView::SetNx { key: key@, value: value@ }),
    {
        self.push(WriteOp::SetNx { key, value });
    }

    /// Adds a step that enters `member` into the sorted set `key` with `score`.
    pub fn z_add(&mut self, key: Vec<u8>, member: Vec<u8>, score: i64)
        ensures
            final(self)@ == old(self)@.push(
                WriteOpView::ZAdd { key: key@, member: member@, score },
            ),
    {
        self.push(WriteOp::ZAdd { key, member, score });
    }

    /// Adds a step that takes `member` out of the sorted set `key`.
    pub fn z_rem(&mut self, key: Vec<u8>, member: Vec<u8>)
        ensures
            final(self)@ == old(self)@.push(WriteOpView::ZRem { key: key@, member: member@ }),
    {
        self.push(WriteOp::ZRem { key, member });
    }
}

} // verus!
