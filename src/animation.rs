use vstd::prelude::*;

verus! {

/// The animation a character plays; derived from its controller state.
#[derive(Clone, Copy, Debug, PartialEq, Eq, Hash, Structural)]
pub enum PapermanAnimationState {
    Turning,
    Walking,
    Running,
    Idle,
}

impl Default for PapermanAnimationState {
    fn default() -> (r: PapermanAnimationState)
        ensures
            r == PapermanAnimationState::Idle,
    {
        PapermanAnimationState::Idle
    }
}

/// How to play one clip: which clip, whether it loops, its playback speed (in
/// thousandths of normal speed) and the cross-fade time into it.
#[derive(Clone, Copy, Debug, PartialEq, Eq, Structural)]
pub struct PapermanAnimationClip {
    pub clip_id: u64,
    pub looped: bool,
    pub speed_permille: u32,
    pub transition_ms: u64,
}

impl PapermanAnimationClip {
    /// A one-shot clip at normal speed with no cross-fade.
    pub fn new(clip_id: u64) -> (r: PapermanAnimationClip)
        ensures
            r == (PapermanAnimationClip {
                clip_id,
                looped: false,
                speed_permille: 1000,
                transition_ms: 0,
            }),
    {
        PapermanAnimationClip { clip_id, looped: false, speed_permille: 1000, transition_ms: 0 }
    }
}

/// The clip registered last for `state` in `entries`, if any.
pub open spec fn last_clip_for(
    entries: Seq<(PapermanAnimationState, PapermanAnimationClip)>,
    state: PapermanAnimationState,
) -> Option<PapermanAnimationClip>
    decreases entries.len(),
{
    if entries.len() == 0 {
        None
    } else if entries.last().0 == state {
        Some(entries.last().1)
    } else {
        last_clip_for(entries.drop_last(), state)
    }
}

/// The clips registered for each animation state.
#[derive(Clone, Copy, Debug)]
pub struct PapermanAnimationResource {
    turning: Option<PapermanAnimationClip>,
    walking: Option<PapermanAnimationClip>,
    running: Option<PapermanAnimationClip>,
    idle: Option<PapermanAnimationClip>,
}

impl PapermanAnimationResource {
    /// The clip registered for `state`, if any.
    pub closed spec fn clip_of(self, state: PapermanAnimationState) -> Option<PapermanAnimationClip> {
        match state {
            PapermanAnimationState::Turning => self.turning,
            PapermanAnimationState::Walking => self.walking,
            PapermanAnimationState::Running => self.running,
            PapermanAnimationState::Idle => self.idle,
        }
    }

    /// The clip `clip_for` picks: the state's own, else the idle clip.
    pub open spec fn spec_clip_for(self, state: PapermanAnimationState) -> PapermanAnimationClip {
        match self.clip_of(state) {
            Some(c) => c,
            None => self.clip_of(PapermanAnimationState::Idle).unwrap(),
        }
    }

    /// Registers the clips of `animations`; where a state occurs twice the later
    /// clip wins.
    pub fn new(animations: Vec<(PapermanAnimationState, PapermanAnimationClip)>) -> (r:
        PapermanAnimationResource)
        ensures
            forall|s: PapermanAnimationState| #[trigger]
                r.clip_of(s) == last_clip_for(animations@, s),
    {
        let mut r = PapermanAnimationResource {
            turning: None,
            walking: None,
            running: None,
            idle: None,
        };
        let mut i: usize = 0;
        while i < animations.len()
            invariant
                i <= animations@.len(),
                forall|s: PapermanAnimationState| #[trigger]
                    r.clip_of(s) == last_clip_for(animations@.take(i as int), s),
            decreases animations@.len() - i,
        {
            let (state, clip) = animations[i];
            let ghost before = r;
            match state {
                PapermanAnimationState::Turning => r.turning = Some(clip),
                PapermanAnimationState::Walking => r.walking = Some(clip),
                PapermanAnimationState::Running => r.running = Some(clip),
                PapermanAnimationState::Idle => r.idle = Some(clip),
            }
            proof {
                let prefix = animations@.take(i as int + 1);
                assert(prefix.drop_last() =~= animations@.take(i as int));
                assert(prefix.last() == animations@[i as int]);
                assert forall|s: PapermanAnimationState| #[trigger]
                    r.clip_of(s) == last_clip_for(prefix, s) by {
                    if s != state {
                        assert(r.clip_of(s) == before.clip_of(s));
                    }
                }
            }
            i += 1;
        }
        assert(animations@.take(animations@.len() as int) =~= animations@);
        r
    }

    /// An idle clip is registered, so that every state has a clip to fall back on.
    pub fn has_default_clip(&self) -> (r: bool)
        ensures
            r == self.clip_of(PapermanAnimationState::Idle) is Some,
    {
        self.idle.is_some()
    }

    /// The idle clip.
    pub fn default_clip(&self) -> (r: &PapermanAnimationClip)
        requires
            self.clip_of(PapermanAnimationState::Idle) is Some,
        ensures
            *r == self.clip_of(PapermanAnimationState::Idle).unwrap(),
    {
        self.idle.as_ref().unwrap()
    }

    /// The clip for `animation_type`, falling back to the idle clip where none is
    /// registered for it.
    pub fn clip_for(&self, animation_type: &PapermanAnimationState) -> (r: &PapermanAnimationClip)
        requires
            self.clip_of(PapermanAnimationState::Idle) is Some,
        ensures
            *r == self.spec_clip_for(*animation_type),
    {
        let own = match animation_type {
            PapermanAnimationState::Turning => &self.turning,
            PapermanAnimationState::Walking => &self.walking,
            PapermanAnimationState::Running => &self.running,
            PapermanAnimationState::Idle => &self.idle,
        };
        match own {
            Some(c) => c,
            None => self.default_clip(),
        }
    }
}

/// The clip settings of each animation state, given the clips to play: idle,
/// walking and running loop, with a cross-fade of 200 ms into idle and 400 ms
/// into the others; the turn plays once, with no cross-fade.
pub fn setup_animation_system(idle: u64, running: u64, walking: u64, turn: u64) -> (r:
    PapermanAnimationResource)
    ensures
        r.clip_of(PapermanAnimationState::Idle) == Some(
            PapermanAnimationClip { clip_id: idle, looped: true, speed_permille: 1000, transition_ms: 200 },
        ),
        r.clip_of(PapermanAnimationState::Running) == Some(
            PapermanAnimationClip { clip_id: running, looped: true, speed_permille: 1000, transition_ms: 400 },
        ),
        r.clip_of(PapermanAnimationState::Walking) == Some(
            PapermanAnimationClip { clip_id: walking, looped: true, speed_permille: 1000, transition_ms: 400 },
        ),
        r.clip_of(PapermanAnimationState::Turning) == Some(
            PapermanAnimationClip { clip_id: turn, looped: false, speed_permille: 1000, transition_ms: 0 },
        ),
{
    let animations = vec![
        (
            PapermanAnimationState::Idle,
            PapermanAnimationClip { looped: true, transition_ms: 200, ..PapermanAnimationClip::new(idle) },
        ),
        (
            PapermanAnimationState::Running,
            PapermanAnimationClip { looped: true, transition_ms: 400, ..PapermanAnimationClip::new(running) },
        ),
        (
            PapermanAnimationState::Walking,
            PapermanAnimationClip { looped: true, transition_ms: 400, ..PapermanAnimationClip::new(walking) },
        ),
        (
            PapermanAnimationState::Turning,
            PapermanAnimationClip { looped: false, transition_ms: 0, ..PapermanAnimationClip::new(turn) },
        ),
    ];
    let r = PapermanAnimationResource::new(animations);
    proof {
        reveal_with_fuel(last_clip_for, 5);
    }
    r
}

/// Sent when a clip that does not loop has finished playing.
#[derive(Clone, Copy, Debug, PartialEq, Eq, Structural)]
pub struct PapermanAnimationFinishedEvent {
    pub state: PapermanAnimationState,
}

/// What the animation player is to do when the animation state changes: play
/// this clip, cross-fading over its transition time, once or forever.
pub fn play_animation_state_system(
    animations: &PapermanAnimationResource,
    state: &PapermanAnimationState,
) -> (r: PapermanAnimationClip)
    requires
        animations.clip_of(PapermanAnimationState::Idle) is Some,
    ensures
        r == animations.spec_clip_for(*state),
{
    *animations.clip_for(state)
}

/// Reports the end of a one-shot clip: when the player is playing the clip of
/// the current state, has finished it, and that clip does not loop, an event
/// for the state is sent.
pub fn finish_animation_state_system(
    state: &PapermanAnimationState,
    animations: &PapermanAnimationResource,
    playing_clip_id: u64,
    player_finished: bool,
) -> (r: Option<PapermanAnimationFinishedEvent>)
    requires
        animations.clip_of(PapermanAnimationState::Idle) is Some,
    ensures
        ({
            let clip = animations.spec_clip_for(*state);
            &&& (playing_clip_id == clip.clip_id && player_finished && !clip.looped) ==> r == Some(
                PapermanAnimationFinishedEvent { state: *state },
            )
            &&& !(playing_clip_id == clip.clip_id && player_finished && !clip.looped) ==> r is None
        }),
{
    let clip = animations.clip_for(state);
    if playing_clip_id == clip.clip_id && player_finished && !clip.looped {
        Some(PapermanAnimationFinishedEvent { state: *state })
    } else {
        None
    }
}

} // verus!
