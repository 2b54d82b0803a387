//! The order rules of a streaming writer pipeline.
//!
//! A message is written through a stack of stages around an output sink,
//! assembled from the outside in: optionally armor, then optionally
//! encryption, then optionally signing, and last, innermost, the literal
//! frame that carries the content. Bytes enter at the literal frame. The
//! stages are finalized from the inside out, each exactly once; any other
//! order would leave a truncated message, so it is refused.

use vstd::prelude::*;
use crate::error::{Error, Result};

verus! {

/// A stage of a writer pipeline.
#[derive(Clone, Copy, Debug, PartialEq, Eq, Structural)]
pub enum Stage {
    /// ASCII armor around the whole binary message.
    Armor,
    /// Encryption to recipients and passwords.
    Encrypt,
    /// Signing of the content.
    Sign,
    /// The literal frame that carries the content.
    Literal,
}

/// The depth at which a stage stands: stages nest in increasing depth.
pub open spec fn depth(s: Stage) -> nat {
    match s {
        Stage::Armor => 0,
        Stage::Encrypt => 1,
        Stage::Sign => 2,
        Stage::Literal => 3,
    }
}

fn stage_depth(s: Stage) -> (r: u8)
    ensures
        r == depth(s),
{
    match s {
        Stage::Armor => 0,
        Stage::Encrypt => 1,
        Stage::Sign => 2,
        Stage::Literal => 3,
    }
}

/// Whether `s` lists stages from the outside in, each deeper than the one
/// around it.
pub open spec fn nested(s: Seq<Stage>) -> bool {
    forall|i: int, j: int| 0 <= i < j < s.len() ==> depth(#[trigger] s[i]) < depth(#[trigger] s[j])
}

/// The stack of stages of one message, from the outside in, and how many
/// of them, counted from the outside, are still open. The finalized stages
/// are always the innermost ones.
pub struct Pipeline {
    stages: Vec<Stage>,
    open: usize,
}

impl Pipeline {
    /// The stages, from the outside in.
    pub closed spec fn stages(&self) -> Seq<Stage> {
        self.stages@
    }

    /// How many stages, counted from the outside, are not yet finalized.
    pub closed spec fn open_count(&self) -> nat {
        self.open as nat
    }

    /// The stages nest in the permitted order and the open ones are a
    /// prefix of them.
    pub open spec fn wf(&self) -> bool {
        &&& nested(self.stages())
        &&& self.open_count() <= self.stages().len()
    }

    /// Whether the innermost stage is the literal frame.
    pub open spec fn framed(&self) -> bool {
        self.stages().len() > 0 && self.stages().last() == Stage::Literal
    }

    /// A pipeline with no stage yet.
    pub fn new() -> (r: Pipeline)
        ensures
            r.wf(),
            r.stages() == Seq::<Stage>::empty(),
            r.open_count() == 0,
    {
        Pipeline { stages: Vec::new(), open: 0 }
    }

    /// Adds `s` inside the innermost stage. Refused with `InvalidArgument`
    /// where `s` may not nest there, and with `SequencingError` once a
    /// stage has been finalized.
    pub fn push(&mut self, s: Stage) -> (r: Result<()>)
        requires
            old(self).wf(),
        ensures
            final(self).wf(),
            r is Ok <==> old(self).open_count() == old(self).stages().len()
                && (old(self).stages().len() == 0 || depth(old(self).stages().last()) < depth(s)),
            r is Ok ==> final(self).stages() == old(self).stages().push(s),
            r is Ok ==> final(self).open_count() == old(self).open_count() + 1,
            r is Err ==> final(self).stages() == old(self).stages(),
            r is Err ==> final(self).open_count() == old(self).open_count(),
            r is Err && old(self).open_count() < old(self).stages().len() ==> r->Err_0 is SequencingError,
            r is Err && old(self).open_count() == old(self).stages().len() ==> r->Err_0 is InvalidArgument,
    {
        let n = self.stages.len();
        if self.open < n {
            return Err(Error::SequencingError);
        }
        if n > 0 && stage_depth(self.stages[n - 1]) >= stage_depth(s) {
            return Err(Error::InvalidArgument(String::from_str("stage does not nest here")));
        }
        self.stages.push(s);
        self.open = self.stages.len();
        assert(nested(self.stages@)) by {
            assert forall|i: int, j: int| 0 <= i < j < self.stages@.len() implies depth(
                #[trigger] self.stages@[i],
            ) < depth(#[trigger] self.stages@[j]) by {
                if j == n as int && i < n as int - 1 {
                    assert(depth(old(self).stages@[i]) < depth(old(self).stages@[n - 1]));
                }
            }
        }
        Ok(())
    }

    /// Whether content bytes may be written: the literal frame is there and
    /// no stage has been finalized.
    pub fn accepts_content(&self) -> (r: bool)
        ensures
            r == (self.framed() && self.open_count() == self.stages().len()),
    {
        let n = self.stages.len();
        n > 0 && self.stages[n - 1] == Stage::Literal && self.open == n
    }

    /// Finalizes `s`, which must be the innermost open stage of a pipeline
    /// whose innermost stage is the literal frame. Any other stage is
    /// refused with `SequencingError`, and nothing changes.
    pub fn finalize(&mut self, s: Stage) -> (r: Result<()>)
        requires
            old(self).wf(),
        ensures
            final(self).wf(),
            final(self).stages() == old(self).stages(),
            r is Ok <==> old(self).framed() && old(self).open_count() > 0
                && old(self).stages()[old(self).open_count() - 1] == s,
            r is Ok ==> final(self).open_count() == old(self).open_count() - 1,
            r is Err ==> r->Err_0 is SequencingError,
            r is Err ==> final(self).open_count() == old(self).open_count(),
    {
        let n = self.stages.len();
        if n == 0 || self.stages[n - 1] != Stage::Literal || self.open == 0 {
            return Err(Error::SequencingError);
        }
        if self.stages[self.open - 1] != s {
            return Err(Error::SequencingError);
        }
        self.open = self.open - 1;
        Ok(())
    }

    /// Whether the message is complete: it has its literal frame and every
    /// stage has been finalized.
    pub fn is_complete(&self) -> (r: bool)
        ensures
            r == (self.framed() && self.open_count() == 0),
    {
        let n = self.stages.len();
        n > 0 && self.stages[n - 1] == Stage::Literal && self.open == 0
    }
}

} // verus!
