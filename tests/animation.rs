use bevy_officespace::animation::{
    finish_animation_state_system, play_animation_state_system, setup_animation_system,
    PapermanAnimationClip, PapermanAnimationFinishedEvent, PapermanAnimationResource,
    PapermanAnimationState,
};

use PapermanAnimationState::{Idle, Running, Turning, Walking};

fn clip(id: u64) -> PapermanAnimationClip {
    PapermanAnimationClip::new(id)
}

#[test]
fn missing_clips_fall_back_to_idle() {
    let r = PapermanAnimationResource::new(vec![(Idle, clip(1)), (Turning, clip(2))]);
    assert!(r.has_default_clip());
    assert_eq!(*r.default_clip(), clip(1));
    assert_eq!(*r.clip_for(&Turning), clip(2));
    assert_eq!(*r.clip_for(&Walking), clip(1));
    assert_eq!(*r.clip_for(&Running), clip(1));
}

#[test]
fn later_registration_wins() {
    let r = PapermanAnimationResource::new(vec![(Idle, clip(1)), (Walking, clip(2)), (Walking, clip(3))]);
    assert_eq!(*r.clip_for(&Walking), clip(3));
    let empty = PapermanAnimationResource::new(vec![(Walking, clip(2))]);
    assert!(!empty.has_default_clip());
}

#[test]
fn default_clip_table() {
    let r = setup_animation_system(10, 11, 12, 13);
    let idle = *r.clip_for(&Idle);
    assert_eq!((idle.clip_id, idle.looped, idle.transition_ms, idle.speed_permille), (10, true, 200, 1000));
    let running = *r.clip_for(&Running);
    assert_eq!((running.clip_id, running.looped, running.transition_ms), (11, true, 400));
    let walking = *r.clip_for(&Walking);
    assert_eq!((walking.clip_id, walking.looped, walking.transition_ms), (12, true, 400));
    let turning = play_animation_state_system(&r, &Turning);
    assert_eq!((turning.clip_id, turning.looped, turning.transition_ms), (13, false, 0));
    assert_eq!(PapermanAnimationState::default(), Idle);
}

#[test]
fn one_shot_clip_reports_when_finished() {
    let r = setup_animation_system(10, 11, 12, 13);
    assert_eq!(
        finish_animation_state_system(&Turning, &r, 13, true),
        Some(PapermanAnimationFinishedEvent { state: Turning })
    );
    assert_eq!(finish_animation_state_system(&Turning, &r, 13, false), None);
    assert_eq!(finish_animation_state_system(&Turning, &r, 10, true), None);
    // Looping clips never finish.
    assert_eq!(finish_animation_state_system(&Idle, &r, 10, true), None);
}
