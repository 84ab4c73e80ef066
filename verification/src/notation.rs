//! The notation model: what a score is made of.

use std::sync::Arc;
use vstd::prelude::*;

verus! {

use crate::position::BarPosition;

/// A fret, counted from the nut: 0 is the open string.
pub struct FretNumber(pub u32);

/// A string of the instrument.
pub struct StringNumber(pub u32);

/// How many beats a bar has: 4 in 4:4 time, 2 in 2:4 time.
pub struct BeatsPerBar(pub u32);

/// How long one beat lasts, usually a power of two: 4, a crotchet, in 2:4
/// and in 4:4 time.
pub struct NoteValue(pub u32);

/// A time signature.
pub struct Signature {
    pub bpb: BeatsPerBar,
    pub value: NoteValue,
}

/// What happens on one string.
pub enum Action {
    /// The string is not played.
    Unused(),
    /// The string is fretted and played at this position in the bar.
    Simple(BarPosition),
    /// The string is damped.
    Muted(),
}

/// A fret together with what is done at it.
pub struct Notation {
    pub fret: FretNumber,
    pub action: Action,
}

/// Notes that sound together.
pub struct Chord {
    /// One notation for each string.
    pub notations: Vec<Notation>,
    pub position: BarPosition,
}

/// A bar of the score.
pub struct Bar {
    /// Width relative to the default, in percent: 100 is the default width,
    /// 200 twice that.
    pub size: u32,
    pub signature: Signature,
    pub notations: Vec<Notation>,
}

/// The score that the staff displays. Cloning it shares the bars.
#[derive(Clone)]
pub struct AppData {
    pub bars: Arc<Vec<Bar>>,
}

impl View for AppData {
    type V = Seq<Bar>;

    open spec fn view(&self) -> Seq<Bar> {
        self.bars@
    }
}

impl AppData {
    /// A score without bars.
    pub fn new() -> (data: AppData)
        ensures
            data@ == Seq::<Bar>::empty(),
    {
        AppData { bars: Arc::new(Vec::new()) }
    }
}

} // verus!
