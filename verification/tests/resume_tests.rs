use cdc_pipeline::resume::{default_resume_height, initial_resume_height, resume_allowed};

#[test]
fn refuses_resume_too_close_to_head() {
    // head 200, margin 100: resuming at 101 would sit only 99 behind the head
    assert!(!resume_allowed(200, 101, 100));
    assert!(resume_allowed(200, 100, 100));
    assert!(!resume_allowed(99, 100, 1));
}

#[test]
fn default_resume_clears_the_margin() {
    assert_eq!(default_resume_height(500, 100), 400);
    assert!(resume_allowed(500, default_resume_height(500, 100), 100));
}

#[test]
fn checkpoint_wins_when_safe() {
    assert_eq!(initial_resume_height(Some(300), 500, 100), Some(300));
    assert_eq!(initial_resume_height(None, 500, 100), Some(400));
    assert_eq!(initial_resume_height(Some(450), 500, 100), None);
}
