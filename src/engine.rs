use vstd::prelude::*;
use crate::cooldown::{on_cooldown, expiry_fits, is_on_cooldown, cooldown_expiry};
use crate::curve::LevelCurve;
use crate::progress::{ProgressRecord, LevelUp, LevelingError, accrue, credit_fits, credited};

verus! {

/// Settings fixed for the life of the process.
#[derive(Clone, Copy, Debug, PartialEq, Eq)]
pub struct LevelsConfig {
    /// Length of the debounce window, in seconds.
    pub cooldown_secs: i64,
    /// Experience granted by each accepted event.
    pub message_xp: u64,
    pub curve: LevelCurve,
}

impl LevelsConfig {
    pub open spec fn wf(&self) -> bool {
        self.curve.wf()
    }
}

/// Where the processing of one activity event stands.
#[derive(Debug, PartialEq, Eq)]
pub enum Stage {
    /// The cooldown marker has been asked for.
    AwaitCooldown,
    /// The cooldown marker is being armed.
    AwaitArm,
    /// The progression record has been asked for.
    AwaitRecord,
    /// A record is being created for an unseen user.
    AwaitCreated,
    /// The updated record is being saved; these level gains follow.
    AwaitSave { level_ups: Vec<LevelUp> },
    /// Nothing more happens for this event.
    Finished,
}

/// What the stores answered to the last action.
#[derive(Debug, PartialEq, Eq)]
pub enum Event {
    /// The user's cooldown marker, if any, read at time `now`.
    CooldownRead { marker: Option<i64>, now: i64 },
    CooldownArmed,
    RecordLoaded { record: Option<ProgressRecord> },
    RecordCreated { created: ProgressRecord },
    RecordSaved,
    StoreFailed,
}

/// What the caller has to do next.
#[derive(Debug, PartialEq, Eq)]
pub enum Action {
    ReadCooldown { user_id: u64 },
    ArmCooldown { user_id: u64, expires_at: i64 },
    LoadRecord { user_id: u64 },
    CreateRecord { user_id: u64 },
    SaveRecord { record: ProgressRecord },
    /// Announce each level gain, in this order; processing is then complete.
    Notify { level_ups: Vec<LevelUp> },
    /// The user is on cooldown: the event is dropped.
    Skip,
    /// Processing stops with this error; the cooldown stays armed.
    Fail { error: LevelingError },
}

/// The processing of one activity event by one user.
#[derive(Debug, PartialEq, Eq)]
pub struct Session {
    pub user_id: u64,
    pub stage: Stage,
}

/// The transition taken once a record is at hand: credit the event's
/// experience and save the result, or stop where the arithmetic overflows.
pub open spec fn credit_step(config: LevelsConfig, record: ProgressRecord, next: Session, action: Action) -> bool {
    if credit_fits(config.curve, record, config.message_xp as nat) {
        &&& next.stage matches Stage::AwaitSave { level_ups }
        &&& action matches Action::SaveRecord { record: saved }
        &&& credited(config.curve, record, config.message_xp as nat, saved, level_ups@)
    } else {
        &&& next.stage is Finished
        &&& action == (Action::Fail { error: LevelingError::Overflow })
    }
}

/// A record handed back for another user stops the processing; the user's
/// own record is credited.
pub open spec fn owned_credit_step(
    config: LevelsConfig,
    user_id: u64,
    record: ProgressRecord,
    next: Session,
    action: Action,
) -> bool {
    if record.id != user_id {
        next.stage is Finished && action == (Action::Fail { error: LevelingError::UnexpectedEvent })
    } else {
        credit_step(config, record, next, action)
    }
}

impl Session {
    /// Starts processing an activity event of `user_id` by reading its
    /// cooldown marker.
    pub fn start(user_id: u64) -> (r: (Session, Action))
        ensures
            r.0.user_id == user_id,
            r.0.stage is AwaitCooldown,
            r.1 == (Action::ReadCooldown { user_id }),
    {
        (Session { user_id, stage: Stage::AwaitCooldown }, Action::ReadCooldown { user_id })
    }

    /// Advances the processing by what the stores answered.
    pub fn step(self, config: &LevelsConfig, event: Event) -> (r: (Session, Action))
        requires
            config.wf(),
        ensures
            r.0.user_id == self.user_id,
            event is StoreFailed ==> r.0.stage is Finished
                && r.1 == (Action::Fail { error: LevelingError::StoreUnavailable }),
            (self.stage, event) matches (Stage::AwaitCooldown, Event::CooldownRead { marker, now }) ==> {
                if on_cooldown(marker, now as int) {
                    r.0.stage is Finished && r.1 == Action::Skip
                } else if expiry_fits(now as int, config.cooldown_secs as int) {
                    &&& r.0.stage is AwaitArm
                    &&& r.1 == (Action::ArmCooldown {
                        user_id: self.user_id,
                        expires_at: (now + config.cooldown_secs) as i64,
                    })
                } else {
                    r.0.stage is Finished && r.1 == (Action::Fail { error: LevelingError::Overflow })
                }
            },
            (self.stage, event) matches (Stage::AwaitArm, Event::CooldownArmed) ==> r.0.stage is AwaitRecord
                && r.1 == (Action::LoadRecord { user_id: self.user_id }),
            (self.stage, event) matches (Stage::AwaitRecord, Event::RecordLoaded { record: None }) ==> r.0.stage is AwaitCreated
                && r.1 == (Action::CreateRecord { user_id: self.user_id }),
            (self.stage, event) matches (Stage::AwaitRecord, Event::RecordLoaded { record: Some(rec) }) ==>
                owned_credit_step(*config, self.user_id, rec, r.0, r.1),
            (self.stage, event) matches (Stage::AwaitCreated, Event::RecordCreated { created: rec }) ==>
                owned_credit_step(*config, self.user_id, rec, r.0, r.1),
            (self.stage, event) matches (Stage::AwaitSave { level_ups }, Event::RecordSaved) ==> r.0.stage is Finished
                && (r.1 matches Action::Notify { level_ups: sent } && sent@ == level_ups@),
            !(event is StoreFailed) && !expected(self.stage, event) ==> r.0.stage is Finished
                && r.1 == (Action::Fail { error: LevelingError::UnexpectedEvent }),
    {
        let user_id = self.user_id;
        let done = Session { user_id, stage: Stage::Finished };
        match (self.stage, event) {
            (_, Event::StoreFailed) => (done, Action::Fail { error: LevelingError::StoreUnavailable }),
            (Stage::AwaitCooldown, Event::CooldownRead { marker, now }) => {
                if is_on_cooldown(marker, now) {
                    (done, Action::Skip)
                } else {
                    match cooldown_expiry(now, config.cooldown_secs) {
                        Some(expires_at) => (
                            Session { user_id, stage: Stage::AwaitArm },
                            Action::ArmCooldown { user_id, expires_at },
                        ),
                        None => (done, Action::Fail { error: LevelingError::Overflow }),
                    }
                }
            },
            (Stage::AwaitArm, Event::CooldownArmed) => (
                Session { user_id, stage: Stage::AwaitRecord },
                Action::LoadRecord { user_id },
            ),
            (Stage::AwaitRecord, Event::RecordLoaded { record: None }) => (
                Session { user_id, stage: Stage::AwaitCreated },
                Action::CreateRecord { user_id },
            ),
            (Stage::AwaitRecord, Event::RecordLoaded { record: Some(record) }) => Self::credit(user_id, config, record),
            (Stage::AwaitCreated, Event::RecordCreated { created }) => Self::credit(user_id, config, created),
            (Stage::AwaitSave { level_ups }, Event::RecordSaved) => (done, Action::Notify { level_ups }),
            _ => (done, Action::Fail { error: LevelingError::UnexpectedEvent }),
        }
    }

    fn credit(user_id: u64, config: &LevelsConfig, record: ProgressRecord) -> (r: (Session, Action))
        requires
            config.wf(),
        ensures
            r.0.user_id == user_id,
            owned_credit_step(*config, user_id, record, r.0, r.1),
    {
        if record.id != user_id {
            return (
                Session { user_id, stage: Stage::Finished },
                Action::Fail { error: LevelingError::UnexpectedEvent },
            );
        }
        match accrue(&config.curve, record, config.message_xp) {
            Ok(accrual) => (
                Session { user_id, stage: Stage::AwaitSave { level_ups: accrual.level_ups } },
                Action::SaveRecord { record: accrual.record },
            ),
            Err(_) => (
                Session { user_id, stage: Stage::Finished },
                Action::Fail { error: LevelingError::Overflow },
            ),
        }
    }
}

/// The pairs of stage and answer that the processing expects.
pub open spec fn expected(stage: Stage, event: Event) -> bool {
    ||| (stage is AwaitCooldown && event is CooldownRead)
    ||| (stage is AwaitArm && event is CooldownArmed)
    ||| (stage is AwaitRecord && event is RecordLoaded)
    ||| (stage is AwaitCreated && event is RecordCreated)
    ||| (stage is AwaitSave && event is RecordSaved)
}

} // verus!
