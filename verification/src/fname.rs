//! The filename scheme of the queue directories.
//!
//! A task is stored as `<seq:016>_<task_id>_<uuid>.json`; the sixteen-digit
//! zero-padded `seq` prefix makes the lexicographic order of inbox entries
//! the submission order (`lemma_task_file_name_order`).  Result records
//! append `.result.json`, `.skipped.json` or `.cancelled.json` to the stem,
//! heartbeats are `<node>.json`, cancel requests `cancel_<task_id>_<uuid>.json`,
//! and atomic writes stage their bytes in a dot-prefixed sibling, which
//! listings never show.

use vstd::prelude::*;
use vstd::string::*;
use crate::strutil::{
    append_str, format_seq16, lex_leq, lex_lt, spec_seq16, str_ends_with, str_lt, str_starts_with,
    lemma_seq16_order, lemma_lex_append,
};

verus! {

/// The inbox filename for a task: zero-padded seq, task id, and uuid,
/// joined by underscores.
pub open spec fn spec_task_file_name(seq: nat, task_id: Seq<char>, uuid: Seq<char>) -> Seq<char> {
    spec_seq16(seq) + "_"@ + task_id + "_"@ + uuid + ".json"@
}

/// Builds the inbox filename for a task.
pub fn task_file_name(seq: u64, task_id: &str, uuid: &str) -> (r: String)
    ensures
        r@ == spec_task_file_name(seq as nat, task_id@, uuid@),
{
    let mut s = format_seq16(seq);
    append_str(&mut s, "_");
    append_str(&mut s, task_id);
    append_str(&mut s, "_");
    append_str(&mut s, uuid);
    append_str(&mut s, ".json");
    proof {
        assert(s@ =~= spec_task_file_name(seq as nat, task_id@, uuid@));
    }
    s
}

/// A filename with a final `.json` removed; other names are kept whole.
pub open spec fn spec_stem(name: Seq<char>) -> Seq<char> {
    if ".json"@.is_suffix_of(name) {
        name.take(name.len() - ".json"@.len())
    } else {
        name
    }
}

/// Strips a final `.json` from a filename.
pub fn stem_of(name: &str) -> (r: String)
    ensures
        r@ == spec_stem(name@),
{
    if str_ends_with(name, ".json") {
        proof {
            reveal_strlit(".json");
        }
        let len = name.unicode_len();
        let s = name.substring_char(0, len - 5);
        proof {
            assert(s@ =~= spec_stem(name@));
        }
        s.to_owned()
    } else {
        name.to_owned()
    }
}

/// The name of the result record archived beside a task file.
pub open spec fn spec_result_file_name(name: Seq<char>) -> Seq<char> {
    spec_stem(name) + ".result.json"@
}

/// The name of the record written for a task skipped as a duplicate.
pub open spec fn spec_skipped_file_name(name: Seq<char>) -> Seq<char> {
    spec_stem(name) + ".skipped.json"@
}

/// The name of the record written for a task cancelled while pending.
pub open spec fn spec_cancelled_file_name(name: Seq<char>) -> Seq<char> {
    spec_stem(name) + ".cancelled.json"@
}

/// Builds the `.result.json` name for a claimed task's filename.
pub fn result_file_name(name: &str) -> (r: String)
    ensures
        r@ == spec_result_file_name(name@),
{
    let mut s = stem_of(name);
    append_str(&mut s, ".result.json");
    s
}

/// Builds the `.skipped.json` name for a claimed task's filename.
pub fn skipped_file_name(name: &str) -> (r: String)
    ensures
        r@ == spec_skipped_file_name(name@),
{
    let mut s = stem_of(name);
    append_str(&mut s, ".skipped.json");
    s
}

/// Builds the `.cancelled.json` name for a pending task's filename.
pub fn cancelled_file_name(name: &str) -> (r: String)
    ensures
        r@ == spec_cancelled_file_name(name@),
{
    let mut s = stem_of(name);
    append_str(&mut s, ".cancelled.json");
    s
}

/// Whether a name under `done/<node>/` records an actually executed task.
pub open spec fn spec_is_result_file(name: Seq<char>) -> bool {
    ".result.json"@.is_suffix_of(name)
}

/// Decides whether a filename ends in `.result.json`.
pub fn is_result_file(name: &str) -> (r: bool)
    ensures
        r == spec_is_result_file(name@),
{
    str_ends_with(name, ".result.json")
}

/// The heartbeat filename for a node.
pub open spec fn spec_hb_file_name(node: Seq<char>) -> Seq<char> {
    node + ".json"@
}

/// Builds the heartbeat filename for a node.
pub fn hb_file_name(node: &str) -> (r: String)
    ensures
        r@ == spec_hb_file_name(node@),
{
    let mut s = node.to_owned();
    append_str(&mut s, ".json");
    s
}

/// The standard-output log path for a task, relative to the lease root.
pub open spec fn spec_log_out_rel(task_id: Seq<char>) -> Seq<char> {
    "logs/"@ + task_id + ".out"@
}

/// The standard-error log path for a task, relative to the lease root.
pub open spec fn spec_log_err_rel(task_id: Seq<char>) -> Seq<char> {
    "logs/"@ + task_id + ".err"@
}

/// Builds the relative standard-output log path for a task.
pub fn log_out_rel(task_id: &str) -> (r: String)
    ensures
        r@ == spec_log_out_rel(task_id@),
{
    let mut s = String::new();
    append_str(&mut s, "logs/");
    append_str(&mut s, task_id);
    append_str(&mut s, ".out");
    s
}

/// Builds the relative standard-error log path for a task.
pub fn log_err_rel(task_id: &str) -> (r: String)
    ensures
        r@ == spec_log_err_rel(task_id@),
{
    let mut s = String::new();
    append_str(&mut s, "logs/");
    append_str(&mut s, task_id);
    append_str(&mut s, ".err");
    s
}

/// The filename of a cancel request for a task.
pub open spec fn spec_cancel_file_name(task_id: Seq<char>, uuid: Seq<char>) -> Seq<char> {
    "cancel_"@ + task_id + "_"@ + uuid + ".json"@
}

/// Builds the filename of a cancel request.
pub fn cancel_file_name(task_id: &str, uuid: &str) -> (r: String)
    ensures
        r@ == spec_cancel_file_name(task_id@, uuid@),
{
    let mut s = String::new();
    append_str(&mut s, "cancel_");
    append_str(&mut s, task_id);
    append_str(&mut s, "_");
    append_str(&mut s, uuid);
    append_str(&mut s, ".json");
    s
}

/// Whether a name under `control/<node>/` is a cancel request.
pub open spec fn spec_is_cancel_file(name: Seq<char>) -> bool {
    "cancel_"@.is_prefix_of(name)
}

/// Decides whether a filename starts with `cancel_`.
pub fn is_cancel_file(name: &str) -> (r: bool)
    ensures
        r == spec_is_cancel_file(name@),
{
    str_starts_with(name, "cancel_")
}

/// The dot-prefixed sibling name an atomic write stages its bytes under.
pub open spec fn spec_temp_file_name(base: Seq<char>, uuid: Seq<char>) -> Seq<char> {
    ".tmp."@ + base + "."@ + uuid
}

/// Builds the staging name for an atomic write of `base`.
pub fn temp_file_name(base: &str, uuid: &str) -> (r: String)
    ensures
        r@ == spec_temp_file_name(base@, uuid@),
        spec_is_hidden(r@),
{
    let mut s = String::new();
    append_str(&mut s, ".tmp.");
    append_str(&mut s, base);
    append_str(&mut s, ".");
    append_str(&mut s, uuid);
    proof {
        reveal_strlit(".tmp.");
    }
    s
}

/// Whether a filename is hidden from directory listings (leading dot).
pub open spec fn spec_is_hidden(name: Seq<char>) -> bool {
    name.len() > 0 && name[0] == '.'
}

/// Decides whether a filename starts with a dot.
pub fn is_hidden(name: &str) -> (r: bool)
    ensures
        r == spec_is_hidden(name@),
{
    if name.unicode_len() == 0 {
        return false;
    }
    let c = name.get_char(0);
    proof {
        reveal_strlit(".");
        vstd::utf8::char_u32_cast(c, c as u32);
        vstd::utf8::char_u32_cast('.', '.' as u32);
    }
    (c as u32) == ('.' as u32)
}

/// Submission order: a smaller sixteen-digit seq puts a task's filename
/// strictly earlier in lexicographic order, whatever the ids and uuids.
pub proof fn lemma_task_file_name_order(
    s1: nat,
    t1: Seq<char>,
    u1: Seq<char>,
    s2: nat,
    t2: Seq<char>,
    u2: Seq<char>,
)
    requires
        s1 < s2,
        s2 < 10_000_000_000_000_000,
    ensures
        lex_lt(spec_task_file_name(s1, t1, u1), spec_task_file_name(s2, t2, u2)),
{
    lemma_seq16_order(s1 as u64, s2 as u64);
    let tail1 = "_"@ + t1 + "_"@ + u1 + ".json"@;
    let tail2 = "_"@ + t2 + "_"@ + u2 + ".json"@;
    lemma_lex_append(spec_seq16(s1), spec_seq16(s2), tail1, tail2);
    assert(spec_seq16(s1) + tail1 =~= spec_task_file_name(s1, t1, u1));
    assert(spec_seq16(s2) + tail2 =~= spec_task_file_name(s2, t2, u2));
}

/// Sorts names lexicographically, dropping hidden (dot-prefixed) names:
/// the view a process takes of a queue directory's raw listing.
pub fn visible_sorted(names: Vec<String>) -> (r: Vec<String>)
    ensures
        r@.to_multiset() == names@.filter(|s: String| !spec_is_hidden(s@)).to_multiset(),
        forall|i: int, j: int| 0 <= i < j < r@.len() ==> lex_leq(r@[i]@, r@[j]@),
        forall|i: int| 0 <= i < r@.len() ==> !spec_is_hidden(r@[i]@),
{
    broadcast use vstd::seq_lib::group_seq_properties;

    let mut src: Vec<String> = Vec::new();
    let mut i: usize = 0;
    let ghost orig = names@;
    while i < names.len()
        invariant
            i <= orig.len(),
            names@ == orig,
            src@ =~= orig.take(i as int).filter(|s: String| !spec_is_hidden(s@)),
        decreases orig.len() - i,
    {
        let ghost prev = src@;
        if !is_hidden(names[i].as_str()) {
            src.push(names[i].clone());
        }
        proof {
            assert(orig.take(i + 1).drop_last() =~= orig.take(i as int));
            reveal(Seq::filter);
        }
        i = i + 1;
    }
    proof {
        assert(orig.take(orig.len() as int) =~= orig);
    }
    let r = sort_strings(src);
    proof {
        broadcast use vstd::seq_lib::group_filter_ensures;

        assert forall|i: int| 0 <= i < r@.len() implies !spec_is_hidden(r@[i]@) by {
            assert(r@.contains(r@[i]));
        }
    }
    r
}

/// Sorts strings lexicographically by selection of the least remaining
/// element; the result is a sorted permutation of the input.
pub fn sort_strings(v: Vec<String>) -> (r: Vec<String>)
    ensures
        r@.to_multiset() == v@.to_multiset(),
        r@.len() == v@.len(),
        forall|i: int, j: int| 0 <= i < j < r@.len() ==> lex_leq(r@[i]@, r@[j]@),
        forall|x: String| r@.contains(x) <==> v@.contains(x),
{
    broadcast use vstd::seq_lib::group_to_multiset_ensures;
    broadcast use vstd::multiset::group_multiset_axioms;

    let mut src = v;
    let mut out: Vec<String> = Vec::new();
    let ghost orig = src@;
    while src.len() > 0
        invariant
            out@.to_multiset().add(src@.to_multiset()) == orig.to_multiset(),
            out@.len() + src@.len() == orig.len(),
            forall|i: int, j: int| 0 <= i < j < out@.len() ==> lex_leq(out@[i]@, out@[j]@),
            forall|i: int, k: int|
                0 <= i < out@.len() && 0 <= k < src@.len() ==> lex_leq(out@[i]@, src@[k]@),
        decreases src@.len(),
    {
        let mut best: usize = 0;
        let mut k: usize = 1;
        proof {
            crate::strutil::lemma_lex_irrefl(src@[0]@);
        }
        while k < src.len()
            invariant
                src@.len() > 0,
                best < src@.len(),
                k <= src@.len(),
                forall|m: int| 0 <= m < k ==> !lex_lt(src@[m]@, src@[best as int]@),
            decreases src@.len() - k,
        {
            let ghost prev_best = best as int;
            if str_lt(src[k].as_str(), src[best].as_str()) {
                best = k;
                proof {
                    crate::strutil::lemma_lex_irrefl(src@[best as int]@);
                    assert forall|m: int| 0 <= m < k + 1 implies !lex_lt(
                        src@[m]@,
                        src@[best as int]@,
                    ) by {
                        if m < k && lex_lt(src@[m]@, src@[best as int]@) {
                            crate::strutil::lemma_lex_trans(
                                src@[m]@,
                                src@[best as int]@,
                                src@[prev_best]@,
                            );
                        }
                    }
                }
            }
            k = k + 1;
        }
        let ghost prev_src = src@;
        let ghost prev_out = out@;
        let m = src.remove(best);
        out.push(m);
        proof {
            prev_src.to_multiset_ensures();
            assert(src@ == prev_src.remove(best as int));
            assert(prev_src.contains(m)) by {
                assert(prev_src[best as int] == m);
            }
            assert(prev_src.to_multiset().count(m) > 0);
            assert(prev_src.remove(best as int).to_multiset() =~= prev_src.to_multiset().remove(m));
            assert(prev_src.to_multiset() =~= src@.to_multiset().insert(m));
            prev_out.to_multiset_ensures();
            assert(out@ == prev_out.push(m));
            assert(prev_out.push(m).to_multiset() =~= prev_out.to_multiset().insert(m));
            assert(prev_out.to_multiset().add(prev_src.to_multiset()) =~= out@.to_multiset().add(
                src@.to_multiset(),
            ));
            assert forall|i: int, kk: int|
                0 <= i < out@.len() && 0 <= kk < src@.len() implies lex_leq(
                out@[i]@,
                src@[kk]@,
            ) by {
                if kk < best {
                    assert(src@[kk] == prev_src[kk]);
                } else {
                    assert(src@[kk] == prev_src[kk + 1]);
                }
            }
        }
    }
    proof {
        assert(src@.to_multiset() =~= vstd::multiset::Multiset::<String>::empty());
        assert(out@.to_multiset() =~= orig.to_multiset());
        assert forall|x: String| out@.contains(x) <==> orig.contains(x) by {
            assert(out@.contains(x) ==> out@.to_multiset().contains(x));
            assert(orig.contains(x) ==> orig.to_multiset().contains(x));
            assert(out@.to_multiset().contains(x) ==> out@.contains(x));
            assert(orig.to_multiset().contains(x) ==> orig.contains(x));
        }
    }
    out
}

} // verus!
