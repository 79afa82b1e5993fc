//! Names of the files and directories a simulation run writes.

use vstd::prelude::*;
use vstd::string::*;
use crate::text::{
    spec_decimal, pad_zeros, pow10, push_decimal, push_decimal_padded, lemma_decimal_len_bound,
    lemma_decimal_injective, lemma_padded_decimal_injective, digits_value, lemma_padded_decimal_value, lemma_decimal_value,
};

verus! {

/// `<log_dir>/frame_<step>.png`, the step zero-padded to five digits.
pub open spec fn spec_frame_file_name(log_dir: Seq<char>, step: nat) -> Seq<char> {
    log_dir + "/frame_"@ + pad_zeros(spec_decimal(step), 5) + ".png"@
}

/// `out/<timestamp>_<num>`.
pub open spec fn spec_log_dir_name(timestamp: Seq<char>, num: nat) -> Seq<char> {
    "out/"@ + timestamp + "_"@ + spec_decimal(num)
}

/// The image file of frame `step` of a run logging into `log_dir`.
pub fn frame_file_name(log_dir: &str, step: u64) -> (name: String)
    ensures
        name@ == spec_frame_file_name(log_dir@, step as nat),
{
    let mut name = String::new();
    name.append(log_dir);
    name.append("/frame_");
    push_decimal_padded(&mut name, step, 5);
    name.append(".png");
    assert(name@ =~= spec_frame_file_name(log_dir@, step as nat));
    name
}

/// The `num`-th candidate for the log directory of a run started at
/// `timestamp`.
pub fn log_dir_name(timestamp: &str, num: u64) -> (name: String)
    ensures
        name@ == spec_log_dir_name(timestamp@, num as nat),
{
    let mut name = String::new();
    name.append("out/");
    name.append(timestamp);
    name.append("_");
    push_decimal(&mut name, num);
    assert(name@ =~= spec_log_dir_name(timestamp@, num as nat));
    name
}

/// Different frames of a run are written to different files, so no frame
/// overwrites another.
pub proof fn lemma_frame_file_names_distinct(log_dir: Seq<char>, a: nat, b: nat)
    ensures
        a != b ==> spec_frame_file_name(log_dir, a) != spec_frame_file_name(log_dir, b),
{
    reveal_strlit("/frame_");
    reveal_strlit(".png");
    let pa = pad_zeros(spec_decimal(a), 5);
    let pb = pad_zeros(spec_decimal(b), 5);
    lemma_padded_decimal_injective(a, b, 5);
    if a != b && spec_frame_file_name(log_dir, a) == spec_frame_file_name(log_dir, b) {
        let na = spec_frame_file_name(log_dir, a);
        let nb = spec_frame_file_name(log_dir, b);
        let start: int = log_dir.len() as int + 7;
        assert(na.len() == nb.len());
        assert(pa.len() == pb.len());
        assert(na.subrange(start, start + pa.len() as int) =~= pa);
        assert(nb.subrange(start, start + pb.len() as int) =~= pb);
    }
}

/// Frames numbered below 100000 carry exactly five digits, as the
/// `frame_%05d.png` pattern that assembles the animation expects.
pub proof fn lemma_frame_number_width(step: nat)
    requires
        step < 100000,
    ensures
        pad_zeros(spec_decimal(step), 5).len() == 5,
{
    reveal_with_fuel(pow10, 6);
    lemma_decimal_len_bound(step, 5);
}

/// Different attempt numbers give different log directories, so the search
/// for a fresh directory can move on to the next number.
pub proof fn lemma_log_dir_names_distinct(timestamp: Seq<char>, a: nat, b: nat)
    ensures
        a != b ==> spec_log_dir_name(timestamp, a) != spec_log_dir_name(timestamp, b),
{
    reveal_strlit("out/");
    reveal_strlit("_");
    lemma_decimal_injective(a, b);
    if a != b && spec_log_dir_name(timestamp, a) == spec_log_dir_name(timestamp, b) {
        let na = spec_log_dir_name(timestamp, a);
        let nb = spec_log_dir_name(timestamp, b);
        let start: int = timestamp.len() as int + 5;
        assert(na.subrange(start, na.len() as int) =~= spec_decimal(a));
        assert(nb.subrange(start, nb.len() as int) =~= spec_decimal(b));
    }
}


/// For frames numbered below 100000, the name is the log directory followed
/// by `/frame_`, five digits that read back as the frame number, and
/// `.png`; every such name has the same length.
pub proof fn lemma_frame_file_name_layout(log_dir: Seq<char>, step: nat)
    requires
        step < 100000,
    ensures
        spec_frame_file_name(log_dir, step).len() == log_dir.len() + 16,
        spec_frame_file_name(log_dir, step).subrange(0, log_dir.len() as int) == log_dir,
        spec_frame_file_name(log_dir, step).subrange(log_dir.len() as int, log_dir.len() as int + 7) == seq![
            '/', 'f', 'r', 'a', 'm', 'e', '_'],
        digits_value(spec_frame_file_name(log_dir, step).subrange(log_dir.len() as int + 7, log_dir.len() as int + 12))
            == step,
        spec_frame_file_name(log_dir, step).subrange(log_dir.len() as int + 12, log_dir.len() as int + 16) == seq![
            '.', 'p', 'n', 'g'],
{
    reveal_strlit("/frame_");
    reveal_strlit(".png");
    lemma_frame_number_width(step);
    reveal_with_fuel(pow10, 6);
    lemma_decimal_len_bound(step, 5);
    lemma_padded_decimal_value(step, 5);
    let name = spec_frame_file_name(log_dir, step);
    let l = log_dir.len() as int;
    let p = pad_zeros(spec_decimal(step), 5);
    assert(name.subrange(0, l) =~= log_dir);
    assert(name.subrange(l, l + 7) =~= seq!['/', 'f', 'r', 'a', 'm', 'e', '_']);
    assert(name.subrange(l + 7, l + 12) =~= p);
    assert(name.subrange(l + 12, l + 16) =~= seq!['.', 'p', 'n', 'g']);
}


/// A log directory name is `out/`, the timestamp, `_`, and digits that read
/// back as the attempt number.
pub proof fn lemma_log_dir_name_layout(timestamp: Seq<char>, num: nat)
    ensures
        ({
            let name = spec_log_dir_name(timestamp, num);
            let l = timestamp.len() as int;
            &&& name.subrange(0, 4) == seq!['o', 'u', 't', '/']
            &&& name.subrange(4, 4 + l) == timestamp
            &&& name[4 + l] == '_'
            &&& digits_value(name.subrange(5 + l, name.len() as int)) == num
        }),
{
    reveal_strlit("out/");
    reveal_strlit("_");
    lemma_decimal_value(num);
    let name = spec_log_dir_name(timestamp, num);
    let l = timestamp.len() as int;
    assert(name.subrange(0, 4) =~= seq!['o', 'u', 't', '/']);
    assert(name.subrange(4, 4 + l) =~= timestamp);
    assert(name.subrange(5 + l, name.len() as int) =~= spec_decimal(num));
}

} // verus!
