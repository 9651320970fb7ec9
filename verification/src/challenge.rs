//! A recorded challenge: its metadata, its party, and the reconstructed
//! per-stage data.

use vstd::prelude::*;

use crate::error::Error;
use crate::event::{
    spec_stage_from_index, stage_index, ChallengeMode, ChallengeType, Stage,
};
use crate::stage::{stage_wf, StageInfo};

verus! {

/// Completion status of a challenge, with wire values `0..=3`.
#[derive(Debug, Clone, Copy, PartialEq, Eq, Structural)]
pub enum Status {
    InProgress,
    Completed,
    Reset,
    Wiped,
}

impl Status {
    /// Decodes a status from its wire value: 0 is in-progress, 1 completed,
    /// 2 wiped, 3 reset; everything else is a field-validation error naming
    /// `status`.
    pub fn try_from(value: i16) -> (r: Result<Status, Error>)
        ensures
            value == 0 ==> r == Ok::<Status, Error>(Status::InProgress),
            value == 1 ==> r == Ok::<Status, Error>(Status::Completed),
            value == 2 ==> r == Ok::<Status, Error>(Status::Wiped),
            value == 3 ==> r == Ok::<Status, Error>(Status::Reset),
            !(0 <= value <= 3) ==> (r matches Err(e) && e.is_invalid_field("status"@)),
    {
        match value {
            0 => Ok(Status::InProgress),
            1 => Ok(Status::Completed),
            2 => Ok(Status::Wiped),
            3 => Ok(Status::Reset),
            _ => Err(Error::InvalidField(String::from_str("status"))),
        }
    }
}

/// A 128-bit challenge identifier, held as two 64-bit halves (the high half
/// holds the first 16 hexadecimal digits of the canonical rendering).
#[derive(Debug, Clone, Copy, PartialEq, Eq, Structural)]
pub struct ChallengeUuid {
    pub hi: u64,
    pub lo: u64,
}

/// The first stage of a challenge of the given type, for the supported types.
pub open spec fn spec_first_stage(t: ChallengeType) -> Option<Stage> {
    match t {
        ChallengeType::Tob => Some(Stage::TobMaiden),
        ChallengeType::Colosseum => Some(Stage::ColosseumWave1),
        _ => None,
    }
}

/// The first stage of a challenge of the given type, if the type is
/// supported.
pub fn first_stage(t: ChallengeType) -> (r: Option<Stage>)
    ensures
        r == spec_first_stage(t),
{
    match t {
        ChallengeType::Tob => Some(Stage::TobMaiden),
        ChallengeType::Colosseum => Some(Stage::ColosseumWave1),
        _ => None,
    }
}

/// The stages a challenge of type `t` covers when it reached `reached`: every
/// stage from the type's first stage up to `reached`, inclusive. Empty when
/// the challenge type is unsupported or `reached` lies before the first
/// stage or outside the type's stage family.
pub open spec fn spec_stage_range(t: ChallengeType, reached: Stage) -> Seq<Stage> {
    match spec_first_stage(t) {
        Some(first) => {
            let lo = stage_index(first);
            let hi = stage_index(reached);
            if lo <= hi {
                Seq::new((hi - lo + 1) as nat, |i: int| spec_stage_from_index(lo + i))
            } else {
                Seq::empty()
            }
        },
        None => Seq::empty(),
    }
}

/// Computes the stages a challenge covers, from its type's first stage up to
/// the reached stage, inclusive. Fails with a field-validation error naming
/// `type` when the challenge type is unsupported, and one naming `stage` when
/// the reached stage does not belong to the type's stage family.
pub fn stage_range(t: ChallengeType, reached: Stage) -> (r: Result<Vec<Stage>, Error>)
    ensures
        match r {
            Ok(stages) => {
                &&& spec_first_stage(t) is Some
                &&& stages@ == spec_stage_range(t, reached)
                &&& spec_stage_family(t, reached)
            },
            Err(e) => {
                &&& spec_first_stage(t) is None ==> e.is_invalid_field("type"@)
                &&& spec_first_stage(t) is Some ==> (!spec_stage_family(t, reached)
                    && e.is_invalid_field("stage"@))
            },
        },
{
    let first = match first_stage(t) {
        Some(first) => first,
        None => {
            return Err(Error::InvalidField(String::from_str("type")));
        },
    };
    if !stage_in_family(t, reached) {
        return Err(Error::InvalidField(String::from_str("stage")));
    }
    let lo = first.index();
    let hi = reached.index();
    let mut stages: Vec<Stage> = Vec::new();
    let mut i: usize = lo;
    while i <= hi
        invariant
            lo <= i <= hi + 1,
            hi <= 17,
            stages@.len() == i - lo,
            forall|j: int| 0 <= j < stages@.len() ==> stages@[j] == spec_stage_from_index(lo + j),
        decreases hi + 1 - i,
    {
        match Stage::from_index(i) {
            Some(s) => stages.push(s),
            None => {
                proof {
                    assert(false);
                }
            },
        }
        i = i + 1;
    }
    proof {
        assert(stages@ =~= spec_stage_range(t, reached));
    }
    Ok(stages)
}

/// True when `stage` belongs to the stage family of challenge type `t` and
/// does not lie before the type's first stage.
pub open spec fn spec_stage_family(t: ChallengeType, stage: Stage) -> bool {
    match t {
        ChallengeType::Tob => stage_index(stage) <= stage_index(Stage::TobVerzik),
        ChallengeType::Colosseum => stage_index(stage) >= stage_index(Stage::ColosseumWave1),
        _ => false,
    }
}

/// Returns whether `stage` belongs to the stage family of challenge type `t`.
fn stage_in_family(t: ChallengeType, stage: Stage) -> (r: bool)
    ensures
        r == spec_stage_family(t, stage),
{
    match t {
        ChallengeType::Tob => stage.index() <= Stage::TobVerzik.index(),
        ChallengeType::Colosseum => stage.index() >= Stage::ColosseumWave1.index(),
        _ => false,
    }
}

/// One recorded play-through: metadata, party, and per-stage reconstructed
/// data. Immutable once constructed.
#[derive(Debug)]
pub struct Challenge {
    uuid: ChallengeUuid,
    challenge_type: ChallengeType,
    mode: ChallengeMode,
    status: Status,
    stage: Stage,
    party: Vec<String>,
    stages: Vec<StageInfo>,
}

/// Invariants of a challenge: every stage is well-formed and the stage list
/// covers exactly the type's first stage up to the reached stage, in order.
pub open spec fn challenge_wf(c: Challenge) -> bool {
    &&& forall|i: int| 0 <= i < c.spec_stages().len() ==> stage_wf(#[trigger] c.spec_stages()[i])
    &&& c.spec_stages().map_values(|s: StageInfo| s.stage) == spec_stage_range(
        c.spec_type(),
        c.spec_stage(),
    )
    &&& spec_first_stage(c.spec_type()) is Some
}

impl Challenge {
    /// The challenge's identifier.
    pub closed spec fn spec_uuid(self) -> ChallengeUuid {
        self.uuid
    }

    /// The challenge's type.
    pub closed spec fn spec_type(self) -> ChallengeType {
        self.challenge_type
    }

    /// The challenge's mode.
    pub closed spec fn spec_mode(self) -> ChallengeMode {
        self.mode
    }

    /// The challenge's status.
    pub closed spec fn spec_status(self) -> Status {
        self.status
    }

    /// The stage the challenge reached.
    pub closed spec fn spec_stage(self) -> Stage {
        self.stage
    }

    /// The party, in presentation order.
    pub closed spec fn spec_party(self) -> Seq<String> {
        self.party@
    }

    /// The per-stage data, in stage order.
    pub closed spec fn spec_stages(self) -> Seq<StageInfo> {
        self.stages@
    }

    /// Composes a challenge from its metadata and its reconstructed stages.
    /// Fails with a field-validation error naming `stage` when the stage list
    /// does not cover exactly the type's first stage up to the reached stage,
    /// and passes through the range errors of [`stage_range`].
    pub fn assemble(
        uuid: ChallengeUuid,
        challenge_type: ChallengeType,
        mode: ChallengeMode,
        status: Status,
        stage: Stage,
        party: Vec<String>,
        stages: Vec<StageInfo>,
    ) -> (r: Result<Challenge, Error>)
        requires
            forall|i: int| 0 <= i < stages@.len() ==> stage_wf(#[trigger] stages@[i]),
        ensures
            match r {
                Ok(c) => {
                    &&& challenge_wf(c)
                    &&& c.spec_uuid() == uuid
                    &&& c.spec_type() == challenge_type
                    &&& c.spec_mode() == mode
                    &&& c.spec_status() == status
                    &&& c.spec_stage() == stage
                    &&& c.spec_party() == party@
                    &&& c.spec_stages() == stages@
                },
                Err(e) => {
                    &&& e matches Error::InvalidField(_)
                    &&& (spec_first_stage(challenge_type) is None || !spec_stage_family(
                        challenge_type,
                        stage,
                    ) || stages@.map_values(|s: StageInfo| s.stage) != spec_stage_range(
                        challenge_type,
                        stage,
                    ))
                },
            },
            spec_first_stage(challenge_type) is Some && spec_stage_family(challenge_type, stage)
                && stages@.map_values(|s: StageInfo| s.stage) == spec_stage_range(
                challenge_type,
                stage,
            ) ==> r is Ok,
    {
        let expected = match stage_range(challenge_type, stage) {
            Ok(expected) => expected,
            Err(e) => {
                return Err(e);
            },
        };
        if stages.len() != expected.len() {
            proof {
                assert(stages@.map_values(|s: StageInfo| s.stage).len() == stages@.len());
            }
            return Err(Error::InvalidField(String::from_str("stage")));
        }
        let n = stages.len();
        let mut i: usize = 0;
        while i < n
            invariant
                i <= n,
                n == stages@.len(),
                n == expected@.len(),
                forall|j: int| 0 <= j < i ==> (#[trigger] stages@[j]).stage == expected@[j],
            decreases n - i,
        {
            if stages[i].stage != expected[i] {
                proof {
                    assert(stages@.map_values(|s: StageInfo| s.stage)[i as int]
                        == stages@[i as int].stage);
                }
                return Err(Error::InvalidField(String::from_str("stage")));
            }
            i = i + 1;
        }
        let c = Challenge { uuid, challenge_type, mode, status, stage, party, stages };
        proof {
            assert(c.spec_stages().map_values(|s: StageInfo| s.stage) =~= spec_stage_range(
                challenge_type,
                stage,
            ));
        }
        Ok(c)
    }

    /// Returns the ID of the challenge.
    pub fn uuid(&self) -> (r: ChallengeUuid)
        ensures
            r == self.spec_uuid(),
    {
        self.uuid
    }

    /// Returns the type of the challenge.
    pub fn challenge_type(&self) -> (r: ChallengeType)
        ensures
            r == self.spec_type(),
    {
        self.challenge_type
    }

    /// Returns the mode of the challenge.
    pub fn mode(&self) -> (r: ChallengeMode)
        ensures
            r == self.spec_mode(),
    {
        self.mode
    }

    /// Returns the status of the challenge.
    pub fn status(&self) -> (r: Status)
        ensures
            r == self.spec_status(),
    {
        self.status
    }

    /// Returns the number of players in the challenge; always equal to the
    /// length of the party.
    pub fn scale(&self) -> (r: usize)
        ensures
            r == self.spec_party().len(),
    {
        self.party.len()
    }

    /// Returns the list of players in the challenge, in presentation order.
    pub fn party(&self) -> (r: &Vec<String>)
        ensures
            r@ == self.spec_party(),
    {
        &self.party
    }

    /// Returns the stage the challenge reached.
    pub fn stage(&self) -> (r: Stage)
        ensures
            r == self.spec_stage(),
    {
        self.stage
    }

    /// Returns the stages of the challenge, in order.
    pub fn stages(&self) -> (r: Vec<Stage>)
        ensures
            r@ == self.spec_stages().map_values(|s: StageInfo| s.stage),
    {
        let n = self.stages.len();
        let mut out: Vec<Stage> = Vec::new();
        let mut i: usize = 0;
        while i < n
            invariant
                i <= n,
                n == self.spec_stages().len(),
                out@.len() == i,
                forall|j: int| 0 <= j < i ==> out@[j] == self.spec_stages()[j].stage,
            decreases n - i,
        {
            out.push(self.stages[i].stage);
            i = i + 1;
        }
        proof {
            assert(out@ =~= self.spec_stages().map_values(|s: StageInfo| s.stage));
        }
        out
    }

    /// Returns all stage data for the challenge.
    pub fn stage_infos(&self) -> (r: &Vec<StageInfo>)
        ensures
            r@ == self.spec_stages(),
    {
        &self.stages
    }

    /// Gets the data for a specific stage of the challenge, if it exists.
    pub fn stage_info(&self, stage: Stage) -> (r: Option<&StageInfo>)
        ensures
            match r {
                Some(info) => exists|i: int|
                    0 <= i < self.spec_stages().len() && self.spec_stages()[i] == *info
                        && (#[trigger] self.spec_stages()[i]).stage == stage,
                None => forall|i: int|
                    0 <= i < self.spec_stages().len() ==> (#[trigger] self.spec_stages()[i]).stage
                        != stage,
            },
    {
        let n = self.stages.len();
        let mut i: usize = 0;
        while i < n
            invariant
                i <= n,
                n == self.spec_stages().len(),
                forall|j: int| 0 <= j < i ==> (#[trigger] self.spec_stages()[j]).stage != stage,
            decreases n - i,
        {
            if self.stages[i].stage == stage {
                return Some(&self.stages[i]);
            }
            i = i + 1;
        }
        None
    }
}

} // verus!
