//! The handoff of pictures from the thread that captures to the one that encodes.
//!
//! It holds a single picture. Capturing overwrites it with the newest one, and
//! encoding takes the latest, so stale pictures are dropped before they cost
//! anything. The state here is what the two threads share under a lock.
use vstd::prelude::*;

verus! {

/// A picture of the screen, four bytes a pixel.
#[derive(Debug)]
pub struct CapturedFrame {
    /// Pixels in a row.
    pub width: u32,
    /// Rows.
    pub height: u32,
    /// The pixels, row by row: blue, green, red and alpha.
    pub data: Vec<u8>,
}

/// What a look into the handoff gave.
#[derive(Debug)]
pub enum Taken {
    /// The latest picture, which is no longer in the handoff.
    Frame(CapturedFrame),
    /// There is no picture, and there will be none.
    Stopped,
    /// There is no picture yet.
    Wait,
}

/// The picture on its way from capturing to encoding, if there is one.
pub struct Handoff {
    /// The latest picture that was not taken.
    pub slot: Option<CapturedFrame>,
    /// Neither side has stopped.
    pub running: bool,
}

impl Handoff {
    /// A handoff without a picture.
    pub fn new() -> (handoff: Self)
        ensures
            handoff == (Handoff { slot: None, running: true }),
    {
        Handoff { slot: None, running: true }
    }

    /// Whether both sides still run.
    pub fn running(&self) -> (running: bool)
        ensures
            running == self.running,
    {
        self.running
    }

    /// One side stops. A picture that is in the handoff stays there.
    pub fn shutdown(&mut self)
        ensures
            *final(self) == (Handoff { slot: old(self).slot, running: false }),
    {
        self.running = false;
    }

    /// Puts a picture in, in place of the one that may be there.
    pub fn put(&mut self, frame: CapturedFrame)
        ensures
            *final(self) == (Handoff { slot: Some(frame), running: old(self).running }),
    {
        self.slot = Some(frame);
    }

    /// Takes the picture out. Without one, says whether to wait for it.
    pub fn take(&mut self) -> (taken: Taken)
        ensures
            *final(self) == (Handoff { slot: None, running: old(self).running }),
            match old(self).slot {
                Some(frame) => taken == Taken::Frame(frame),
                None => taken == if old(self).running {
                    Taken::Wait
                } else {
                    Taken::Stopped
                },
            },
    {
        match self.slot.take() {
            Some(frame) => Taken::Frame(frame),
            None => if self.running {
                Taken::Wait
            } else {
                Taken::Stopped
            },
        }
    }
}

/// Something that one of the threads did.
pub enum Deed {
    /// A picture was put in.
    Put(CapturedFrame),
    /// The handoff was looked into.
    Take,
    /// A side stopped.
    Shutdown,
}

/// The handoff after some deeds, in the order in which they happened.
pub open spec fn after(deeds: Seq<Deed>) -> Handoff
    decreases deeds.len(),
{
    if deeds.len() == 0 {
        Handoff { slot: None, running: true }
    } else {
        let before = after(deeds.drop_last());
        match deeds.last() {
            Deed::Put(frame) => Handoff { slot: Some(frame), ..before },
            Deed::Take => Handoff { slot: None, ..before },
            Deed::Shutdown => Handoff { running: false, ..before },
        }
    }
}

/// The picture at `at` was put in, and after that no other was, and none taken.
pub open spec fn pending(deeds: Seq<Deed>, at: int) -> bool {
    &&& 0 <= at < deeds.len()
    &&& deeds[at] is Put
    &&& forall|later: int| at < later < deeds.len() ==> (#[trigger] deeds[later]) is Shutdown
}

/// The latest picture wins: what is in the handoff is the last picture that was put
/// in, unless it was taken since. So a picture that was overwritten is never
/// taken, none is taken twice, and pictures are taken in the order in which they
/// were put in.
pub proof fn law_latest_picture_wins(deeds: Seq<Deed>, at: int)
    ensures
        pending(deeds, at) ==> after(deeds).slot == Some(deeds[at]->Put_0),
        (forall|other: int| !pending(deeds, other)) ==> after(deeds).slot is None,
    decreases deeds.len(),
{
    if deeds.len() > 0 {
        let before = deeds.drop_last();
        let last = deeds.len() - 1;
        law_latest_picture_wins(before, at);
        match deeds.last() {
            Deed::Put(_) => {
                assert(pending(deeds, last));
            },
            Deed::Take => {
                if pending(deeds, at) {
                    assert(deeds[last] is Shutdown);
                }
            },
            Deed::Shutdown => {
                if pending(deeds, at) {
                    assert(pending(before, at)) by {
                        assert forall|later: int| at < later < before.len() implies (
                        #[trigger] before[later]) is Shutdown by {
                            assert(deeds[later] is Shutdown);
                        }
                    }
                }
                if exists|other: int| pending(before, other) {
                    let other = choose|other: int| pending(before, other);
                    assert(pending(deeds, other)) by {
                        assert forall|later: int| other < later < deeds.len() implies (
                        #[trigger] deeds[later]) is Shutdown by {
                            if later < last {
                                assert(before[later] is Shutdown);
                            }
                        }
                    }
                }
            },
        }
    }
}

/// Once a side has stopped, the handoff stays stopped.
pub proof fn law_shutdown_is_for_good(deeds: Seq<Deed>)
    ensures
        after(deeds).running <==> forall|n: int|
            0 <= n < deeds.len() ==> !((#[trigger] deeds[n]) is Shutdown),
    decreases deeds.len(),
{
    if deeds.len() > 0 {
        let before = deeds.drop_last();
        law_shutdown_is_for_good(before);
        assert(forall|n: int| 0 <= n < before.len() ==> before[n] == deeds[n]);
        if after(deeds).running {
            assert forall|n: int| 0 <= n < deeds.len() implies !((#[trigger] deeds[n]) is Shutdown) by {
                if n < before.len() {
                    assert(!(before[n] is Shutdown));
                }
            }
        } else if deeds.last() is Shutdown {
            assert(deeds[deeds.len() - 1] is Shutdown);
        } else {
            let n = choose|n: int| 0 <= n < before.len() && (#[trigger] before[n]) is Shutdown;
            assert(deeds[n] is Shutdown);
        }
    }
}

} // verus!
