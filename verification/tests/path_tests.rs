//! Tests of the repository path layout and the text helpers.

use blert_analysis::challenge::ChallengeUuid;
use blert_analysis::data_repository::{
    challenge_file_name, relative_path, stage_file_name, uuid_string,
};
use blert_analysis::event::Stage;
use blert_analysis::text::decimal_string;

#[test]
fn uuid_renders_hyphenated() {
    let uuid = ChallengeUuid { hi: 0x0123_4567_89ab_cdef, lo: 0xfedc_ba98_7654_3210 };
    assert_eq!(uuid_string(uuid), "01234567-89ab-cdef-fedc-ba9876543210");
}

#[test]
fn relative_path_layout() {
    // The path is the identifier's first two hexadecimal digits, the compact
    // identifier, and the file name.
    let uuid = ChallengeUuid { hi: 0x0123_4567_89ab_cdef, lo: 0xfedc_ba98_7654_3210 };
    assert_eq!(
        relative_path(uuid, challenge_file_name()),
        "01/0123456789abcdeffedcba9876543210/challenge"
    );
    assert_eq!(
        relative_path(uuid, stage_file_name(Stage::TobMaiden)),
        "01/0123456789abcdeffedcba9876543210/maiden"
    );
}

#[test]
fn stage_file_names() {
    assert_eq!(stage_file_name(Stage::TobMaiden), "maiden");
    assert_eq!(stage_file_name(Stage::TobBloat), "bloat");
    assert_eq!(stage_file_name(Stage::TobNylocas), "nylocas");
    assert_eq!(stage_file_name(Stage::TobSotetseg), "sotetseg");
    assert_eq!(stage_file_name(Stage::TobXarpus), "xarpus");
    assert_eq!(stage_file_name(Stage::TobVerzik), "verzik");
    assert_eq!(stage_file_name(Stage::ColosseumWave1), "wave-1");
    assert_eq!(stage_file_name(Stage::ColosseumWave12), "wave-12");
}

#[test]
fn decimal_rendering() {
    assert_eq!(decimal_string(0), "0");
    assert_eq!(decimal_string(7), "7");
    assert_eq!(decimal_string(12345), "12345");
    assert_eq!(decimal_string(u64::MAX), "18446744073709551615");
}
