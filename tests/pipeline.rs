use openpgp::pipeline::{Pipeline, Stage};
use openpgp::Error;

fn full_stack() -> Pipeline {
    let mut p = Pipeline::new();
    for s in [Stage::Armor, Stage::Encrypt, Stage::Sign, Stage::Literal] {
        p.push(s).unwrap();
    }
    p
}

#[test]
fn inside_out_finalization_completes() {
    let mut p = full_stack();
    assert!(p.accepts_content());
    assert!(!p.is_complete());
    for s in [Stage::Literal, Stage::Sign, Stage::Encrypt, Stage::Armor] {
        p.finalize(s).unwrap();
    }
    assert!(p.is_complete());
    assert!(!p.accepts_content());
}

#[test]
fn outer_stage_before_inner_is_refused() {
    let mut p = full_stack();
    assert!(matches!(p.finalize(Stage::Encrypt), Err(Error::SequencingError)));
    assert!(matches!(p.finalize(Stage::Armor), Err(Error::SequencingError)));
    // Nothing changed: the proper order still works.
    p.finalize(Stage::Literal).unwrap();
    assert!(matches!(p.finalize(Stage::Armor), Err(Error::SequencingError)));
    p.finalize(Stage::Sign).unwrap();
    p.finalize(Stage::Encrypt).unwrap();
    p.finalize(Stage::Armor).unwrap();
    assert!(p.is_complete());
}

#[test]
fn stage_is_finalized_once() {
    let mut p = Pipeline::new();
    p.push(Stage::Literal).unwrap();
    p.finalize(Stage::Literal).unwrap();
    assert!(matches!(p.finalize(Stage::Literal), Err(Error::SequencingError)));
    assert!(p.is_complete());
}

#[test]
fn no_content_after_finalize() {
    let mut p = Pipeline::new();
    p.push(Stage::Encrypt).unwrap();
    p.push(Stage::Literal).unwrap();
    assert!(p.accepts_content());
    p.finalize(Stage::Literal).unwrap();
    assert!(!p.accepts_content());
    assert!(matches!(p.push(Stage::Literal), Err(Error::SequencingError)));
}

#[test]
fn stages_nest_in_the_permitted_order() {
    let mut p = Pipeline::new();
    p.push(Stage::Sign).unwrap();
    assert!(matches!(p.push(Stage::Encrypt), Err(Error::InvalidArgument(_))));
    assert!(matches!(p.push(Stage::Sign), Err(Error::InvalidArgument(_))));
    p.push(Stage::Literal).unwrap();
    assert!(matches!(p.push(Stage::Armor), Err(Error::InvalidArgument(_))));
}

#[test]
fn literal_frame_is_mandatory() {
    let mut p = Pipeline::new();
    p.push(Stage::Armor).unwrap();
    p.push(Stage::Encrypt).unwrap();
    assert!(!p.accepts_content());
    assert!(matches!(p.finalize(Stage::Encrypt), Err(Error::SequencingError)));
    assert!(!p.is_complete());
    assert!(!Pipeline::new().is_complete());
}
