//! Path layout of the raw event repository: where a challenge's data blob and
//! each stage's event file live, relative to the repository root. The backend
//! that reads the files is the host's concern; the layout is fixed here.

use vstd::prelude::*;

use crate::challenge::ChallengeUuid;
use crate::event::Stage;
use crate::text::{append_hex_fixed, spec_hex_fixed};

verus! {

/// The canonical hyphenated rendering of a challenge identifier: five groups
/// of lower-case hexadecimal digits of widths 8, 4, 4, 4 and 12.
pub open spec fn spec_uuid_hyphenated(u: ChallengeUuid) -> Seq<char> {
    spec_hex_fixed((u.hi >> 32) as int, 8) + seq!['-'] + spec_hex_fixed(
        ((u.hi >> 16) & 0xffff) as int,
        4,
    ) + seq!['-'] + spec_hex_fixed((u.hi & 0xffff) as int, 4) + seq!['-'] + spec_hex_fixed(
        (u.lo >> 48) as int,
        4,
    ) + seq!['-'] + spec_hex_fixed((u.lo & 0xffff_ffff_ffff) as int, 12)
}

/// The compact rendering of a challenge identifier: its 32 lower-case
/// hexadecimal digits without separators.
pub open spec fn spec_uuid_compact(u: ChallengeUuid) -> Seq<char> {
    spec_hex_fixed(u.hi as int, 16) + spec_hex_fixed(u.lo as int, 16)
}

/// The repository path of a file of one challenge: the identifier's first two
/// hexadecimal digits, the compact identifier, and the file name, separated
/// by slashes.
pub open spec fn spec_relative_path(u: ChallengeUuid, file_name: Seq<char>) -> Seq<char> {
    spec_hex_fixed((u.hi >> 56) as int, 2) + seq!['/'] + spec_uuid_compact(u) + seq!['/']
        + file_name
}

/// Renders a challenge identifier in its canonical hyphenated form.
pub fn uuid_string(u: ChallengeUuid) -> (s: String)
    ensures
        s@ == spec_uuid_hyphenated(u),
{
    proof {
        reveal_strlit("-");
    }
    let mut s = String::new();
    append_hex_fixed(&mut s, u.hi >> 32, 8);
    s.append("-");
    append_hex_fixed(&mut s, (u.hi >> 16) & 0xffff, 4);
    s.append("-");
    append_hex_fixed(&mut s, u.hi & 0xffff, 4);
    s.append("-");
    append_hex_fixed(&mut s, u.lo >> 48, 4);
    s.append("-");
    append_hex_fixed(&mut s, u.lo & 0xffff_ffff_ffff, 12);
    proof {
        assert(s@ =~= spec_uuid_hyphenated(u));
    }
    s
}

/// Returns the relative path to a file of one challenge from the root of the
/// repository.
pub fn relative_path(uuid: ChallengeUuid, file_name: &str) -> (s: String)
    ensures
        s@ == spec_relative_path(uuid, file_name@),
{
    proof {
        reveal_strlit("/");
    }
    let mut s = String::new();
    append_hex_fixed(&mut s, uuid.hi >> 56, 2);
    s.append("/");
    append_hex_fixed(&mut s, uuid.hi, 16);
    append_hex_fixed(&mut s, uuid.lo, 16);
    s.append("/");
    s.append(file_name);
    proof {
        assert(s@ =~= spec_relative_path(uuid, file_name@));
    }
    s
}

/// The file name of the challenge-wide data blob.
pub fn challenge_file_name() -> (r: &'static str)
    ensures
        r@ == "challenge"@,
{
    "challenge"
}

/// The stage-specific event file name of each supported stage.
pub open spec fn spec_stage_file_name(stage: Stage) -> Seq<char> {
    match stage {
        Stage::TobMaiden => "maiden"@,
        Stage::TobBloat => "bloat"@,
        Stage::TobNylocas => "nylocas"@,
        Stage::TobSotetseg => "sotetseg"@,
        Stage::TobXarpus => "xarpus"@,
        Stage::TobVerzik => "verzik"@,
        Stage::ColosseumWave1 => "wave-1"@,
        Stage::ColosseumWave2 => "wave-2"@,
        Stage::ColosseumWave3 => "wave-3"@,
        Stage::ColosseumWave4 => "wave-4"@,
        Stage::ColosseumWave5 => "wave-5"@,
        Stage::ColosseumWave6 => "wave-6"@,
        Stage::ColosseumWave7 => "wave-7"@,
        Stage::ColosseumWave8 => "wave-8"@,
        Stage::ColosseumWave9 => "wave-9"@,
        Stage::ColosseumWave10 => "wave-10"@,
        Stage::ColosseumWave11 => "wave-11"@,
        Stage::ColosseumWave12 => "wave-12"@,
    }
}

/// Returns the event file name of a stage.
pub fn stage_file_name(stage: Stage) -> (r: &'static str)
    ensures
        r@ == spec_stage_file_name(stage),
{
    match stage {
        Stage::TobMaiden => "maiden",
        Stage::TobBloat => "bloat",
        Stage::TobNylocas => "nylocas",
        Stage::TobSotetseg => "sotetseg",
        Stage::TobXarpus => "xarpus",
        Stage::TobVerzik => "verzik",
        Stage::ColosseumWave1 => "wave-1",
        Stage::ColosseumWave2 => "wave-2",
        Stage::ColosseumWave3 => "wave-3",
        Stage::ColosseumWave4 => "wave-4",
        Stage::ColosseumWave5 => "wave-5",
        Stage::ColosseumWave6 => "wave-6",
        Stage::ColosseumWave7 => "wave-7",
        Stage::ColosseumWave8 => "wave-8",
        Stage::ColosseumWave9 => "wave-9",
        Stage::ColosseumWave10 => "wave-10",
        Stage::ColosseumWave11 => "wave-11",
        Stage::ColosseumWave12 => "wave-12",
    }
}

} // verus!
