use std::sync::Arc;
use tablature::notation::{
    Action, Bar, BeatsPerBar, Chord, FretNumber, Notation, NoteValue, Signature, StringNumber,
};
use tablature::{AppData, BarPosition};

#[test]
fn new_score_has_no_bars() {
    let data = AppData::new();
    assert!(data.bars.is_empty());
}

#[test]
fn cloned_score_shares_its_bars() {
    let data = AppData::new();
    let copy = data.clone();
    assert!(Arc::ptr_eq(&data.bars, &copy.bars));
}

#[test]
fn new_scores_do_not_share() {
    assert!(!Arc::ptr_eq(&AppData::new().bars, &AppData::new().bars));
}

#[test]
fn bar_holds_its_notations() {
    let bar = Bar {
        size: 100,
        signature: Signature { bpb: BeatsPerBar(4), value: NoteValue(4) },
        notations: vec![
            Notation { fret: FretNumber(0), action: Action::Unused() },
            Notation { fret: FretNumber(3), action: Action::Simple(BarPosition::from_ratio(3, 2)) },
            Notation { fret: FretNumber(0), action: Action::Muted() },
        ],
    };
    let data = AppData { bars: Arc::new(vec![bar]) };
    assert_eq!(data.bars.len(), 1);
    let bar = &data.bars[0];
    assert_eq!(bar.size, 100);
    assert_eq!((bar.signature.bpb.0, bar.signature.value.0), (4, 4));
    assert_eq!(bar.notations.len(), 3);
    assert!(matches!(bar.notations[0].action, Action::Unused()));
    match &bar.notations[1] {
        Notation { fret: FretNumber(3), action: Action::Simple(position) } => {
            assert_eq!((position.numer(), position.denom()), (3, 2));
        }
        _ => panic!("the second notation is a fretted note"),
    }
    assert!(matches!(bar.notations[2].action, Action::Muted()));
}

#[test]
fn chord_has_a_notation_for_each_string() {
    let chord = Chord {
        notations: (0..6).map(|fret| Notation { fret: FretNumber(fret), action: Action::Muted() }).collect(),
        position: BarPosition::new(),
    };
    assert_eq!(chord.notations.len(), 6);
    assert_eq!(chord.notations[5].fret.0, 5);
    assert_eq!((chord.position.numer(), chord.position.denom()), (0, 1));
    assert_eq!(StringNumber(6).0, 6);
}
