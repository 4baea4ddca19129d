use vstd::prelude::*;
use crate::curve::{LevelCurve, required_xp, cost_fits, xp_required_for_level, lemma_required_at_least_base};

verus! {

/// A user's stored progression: experience held within the current level,
/// and the level itself.
#[derive(Clone, Copy, Debug, PartialEq, Eq)]
pub struct ProgressRecord {
    pub id: u64,
    pub xp: u64,
    pub level: u32,
}

/// One level gained: the level entered, the experience left over after paying
/// for it, and the cost of the level after it.
#[derive(Clone, Copy, Debug, PartialEq, Eq)]
pub struct LevelUp {
    pub user_id: u64,
    pub new_level: u32,
    pub xp: u64,
    pub required_xp: u64,
}

/// Why an event could not be processed.
#[derive(Clone, Copy, Debug, PartialEq, Eq)]
pub enum LevelingError {
    /// A store could not be read or written.
    StoreUnavailable,
    /// An amount, a level or a time left the range of its integer type.
    Overflow,
    /// An event arrived that the current stage does not expect, or a store
    /// handed back another user's record.
    UnexpectedEvent,
}

/// The outcome of crediting experience: the record to persist and the level
/// gains it went through, lowest first.
#[derive(Debug)]
pub struct Accrual {
    pub record: ProgressRecord,
    pub level_ups: Vec<LevelUp>,
}

/// A fresh record for a user never seen before.
pub fn new_record(id: u64) -> (r: ProgressRecord)
    ensures
        r.id == id,
        r.xp == 0,
        r.level == 0,
{
    ProgressRecord { id, xp: 0, level: 0 }
}

/// Total cost of the levels entered when going from level `lo` to level `hi`,
/// that is of the levels `lo + 1` through `hi`.
pub open spec fn cost_between(c: LevelCurve, lo: nat, hi: nat) -> int
    decreases hi,
{
    if hi <= lo {
        0
    } else {
        cost_between(c, lo, (hi - 1) as nat) + required_xp(c, hi)
    }
}

/// The level reached from `level` holding `xp`, entering the next level
/// as long as its cost is positive and can be paid.
pub open spec fn settled_level(c: LevelCurve, level: nat, xp: int) -> nat
    decreases xp,
{
    let need = required_xp(c, level + 1);
    if need >= 1 && xp >= need {
        settled_level(c, level + 1, xp - need)
    } else {
        level
    }
}

/// Whether every cost looked at on the way from `level` with `xp` to the
/// settled level, the level after it included, fits the arithmetic, and so
/// does every level number.
pub open spec fn path_fits(c: LevelCurve, level: nat, xp: int) -> bool
    decreases xp,
{
    let need = required_xp(c, level + 1);
    &&& level + 1 <= u32::MAX
    &&& cost_fits(c, level + 1)
    &&& (need >= 1 && xp >= need ==> path_fits(c, level + 1, xp - need))
}

/// Whether crediting `gain` to `before` stays within the integer types used.
pub open spec fn credit_fits(c: LevelCurve, before: ProgressRecord, gain: nat) -> bool {
    &&& before.xp + gain <= u64::MAX
    &&& path_fits(c, before.level as nat, before.xp + gain)
}

/// `after` and `ups` are what crediting `gain` to `before` yields: the
/// settled level, the experience left once each level entered is paid for,
/// and one level gain per level entered, lowest first, each carrying the
/// experience left at that point and the cost of the level after it.
pub open spec fn credited(
    c: LevelCurve,
    before: ProgressRecord,
    gain: nat,
    after: ProgressRecord,
    ups: Seq<LevelUp>,
) -> bool {
    let total = before.xp + gain;
    let fin = settled_level(c, before.level as nat, total);
    &&& after.id == before.id
    &&& after.level == fin
    &&& after.xp == total - cost_between(c, before.level as nat, fin)
    &&& after.xp < required_xp(c, after.level as nat + 1)
    &&& ups.len() == fin - before.level
    &&& forall|i: int| 0 <= i < ups.len() ==> {
        let u = #[trigger] ups[i];
        &&& u.user_id == before.id
        &&& u.new_level == before.level + i + 1
        &&& u.xp == total - cost_between(c, before.level as nat, u.new_level as nat)
        &&& u.required_xp == required_xp(c, u.new_level as nat + 1)
    }
}

/// Credits `gain` experience to `record` and enters every level that can be
/// paid for. Entering level `L + 1` is allowed once the experience held
/// reaches `required_xp(L + 1)`, and that same amount, the cost of the level
/// just entered, is what is taken from the experience held.
pub fn accrue(curve: &LevelCurve, record: ProgressRecord, gain: u64) -> (r: Result<Accrual, LevelingError>)
    requires
        curve.wf(),
    ensures
        r is Ok <==> credit_fits(*curve, record, gain as nat),
        r is Err ==> r == Err::<Accrual, LevelingError>(LevelingError::Overflow),
        r matches Ok(a) ==> credited(*curve, record, gain as nat, a.record, a.level_ups@),
{
    let start: Ghost<nat> = Ghost(record.level as nat);
    let total = match record.xp.checked_add(gain) {
        None => {
            return Err(LevelingError::Overflow);
        },
        Some(t) => t,
    };
    let mut level: u32 = record.level;
    let mut xp: u64 = total;
    let mut level_ups: Vec<LevelUp> = Vec::new();
    if level == u32::MAX {
        return Err(LevelingError::Overflow);
    }
    let mut need: u64 = match xp_required_for_level(curve, level + 1) {
        None => {
            return Err(LevelingError::Overflow);
        },
        Some(v) => v,
    };
    proof {
        lemma_required_at_least_base(*curve, level as nat + 1);
    }
    while xp >= need
        invariant
            curve.wf(),
            start@ == record.level,
            total == record.xp + gain,
            start@ <= level,
            level + 1 <= u32::MAX,
            need == required_xp(*curve, level as nat + 1),
            need >= 1,
            cost_fits(*curve, level as nat + 1),
            xp == total - cost_between(*curve, start@, level as nat),
            settled_level(*curve, start@, total as int) == settled_level(*curve, level as nat, xp as int),
            path_fits(*curve, start@, total as int) == path_fits(*curve, level as nat, xp as int),
            level_ups@.len() == level - start@,
            forall|i: int| 0 <= i < level_ups@.len() ==> {
                let u = #[trigger] level_ups@[i];
                &&& u.user_id == record.id
                &&& u.new_level == start@ + i + 1
                &&& u.xp == total - cost_between(*curve, start@, u.new_level as nat)
                &&& u.required_xp == required_xp(*curve, u.new_level as nat + 1)
            },
        decreases xp,
    {
        assert(path_fits(*curve, level as nat, xp as int) == path_fits(*curve, level as nat + 1, xp - need));
        assert(settled_level(*curve, level as nat, xp as int) == settled_level(*curve, level as nat + 1, xp - need));
        xp = xp - need;
        level = level + 1;
        assert(cost_between(*curve, start@, level as nat) == cost_between(*curve, start@, (level - 1) as nat)
            + required_xp(*curve, level as nat));
        if level == u32::MAX {
            assert(!path_fits(*curve, level as nat, xp as int));
            return Err(LevelingError::Overflow);
        }
        need = match xp_required_for_level(curve, level + 1) {
            None => {
                assert(!path_fits(*curve, level as nat, xp as int));
                return Err(LevelingError::Overflow);
            },
            Some(v) => v,
        };
        proof {
            lemma_required_at_least_base(*curve, level as nat + 1);
        }
        level_ups.push(LevelUp { user_id: record.id, new_level: level, xp, required_xp: need });
    }
    Ok(Accrual { record: ProgressRecord { id: record.id, xp, level }, level_ups })
}

} // verus!
