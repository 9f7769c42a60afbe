//! The history of generated and edited images: which files of the record
//! directory hold records, newest first, and which records a listing keeps.
use vstd::prelude::*;
use vstd::multiset::{lemma_multiset_empty_len, Multiset};
use vstd::seq_lib::{to_multiset_build, to_multiset_insert, to_multiset_len};
use crate::text::{str_eq, trim, trim_ws};
use crate::records::AiImageRecord;
use crate::tools::ToolError;

verus! {

/// A record file: a name with a non-empty stem and the extension `json`.
pub open spec fn is_record_file(name: Seq<char>) -> bool {
    name.len() > 5 && name.subrange(name.len() - 5, name.len() as int) == ".json"@
}

/// `a` sorts before `b`, character by character, a prefix first.
pub open spec fn lex_lt(a: Seq<char>, b: Seq<char>) -> bool
    decreases a.len(),
{
    if a.len() == 0 {
        b.len() > 0
    } else if b.len() == 0 {
        false
    } else if a[0] != b[0] {
        (a[0] as u32) < (b[0] as u32)
    } else {
        lex_lt(a.drop_first(), b.drop_first())
    }
}

/// Each name sorts no earlier than the next one.
pub open spec fn sorted_desc(s: Seq<String>) -> bool {
    forall|k: int| 0 <= k < s.len() - 1 ==> !lex_lt(#[trigger] s[k]@, s[k + 1]@)
}

pub open spec fn record_file_pred() -> spec_fn(String) -> bool {
    |s: String| is_record_file(s@)
}

proof fn lemma_lex_lt_asymmetric(a: Seq<char>, b: Seq<char>)
    ensures
        lex_lt(a, b) ==> !lex_lt(b, a),
    decreases a.len(),
{
    if a.len() > 0 && b.len() > 0 && a[0] == b[0] {
        lemma_lex_lt_asymmetric(a.drop_first(), b.drop_first());
    }
}

fn str_lt(a: &str, b: &str) -> (r: bool)
    ensures
        r == lex_lt(a@, b@),
{
    let n = a.unicode_len();
    let m = b.unicode_len();
    let mut i: usize = 0;
    assert(a@.skip(0) =~= a@ && b@.skip(0) =~= b@);
    while i < n && i < m
        invariant
            n == a@.len(),
            m == b@.len(),
            i <= n,
            i <= m,
            lex_lt(a@, b@) == lex_lt(a@.skip(i as int), b@.skip(i as int)),
        decreases n - i,
    {
        let ca = a.get_char(i);
        let cb = b.get_char(i);
        if ca != cb {
            return (ca as u32) < (cb as u32);
        }
        assert(a@.skip(i as int).drop_first() =~= a@.skip(i + 1));
        assert(b@.skip(i as int).drop_first() =~= b@.skip(i + 1));
        i = i + 1;
    }
    i == n && i < m
}

fn is_record_file_name(name: &str) -> (r: bool)
    ensures
        r == is_record_file(name@),
{
    let n = name.unicode_len();
    if n <= 5 {
        return false;
    }
    str_eq(name.substring_char(n - 5, n), ".json")
}

/// The record files among the names, newest (greatest) first.
pub fn record_files_newest_first(names: Vec<String>) -> (r: Vec<String>)
    ensures
        sorted_desc(r@),
        r@.to_multiset() == names@.filter(record_file_pred()).to_multiset(),
{
    let ghost all = names@;
    let mut rest = names;
    let mut out: Vec<String> = Vec::new();
    proof {
        to_multiset_len(out@);
        lemma_multiset_empty_len(out@.to_multiset());
        assert(rest@ == all);
        assert(out@.to_multiset().add(rest@.filter(record_file_pred()).to_multiset()) =~= all.filter(
            record_file_pred(),
        ).to_multiset());
    }
    while rest.len() > 0
        invariant
            sorted_desc(out@),
            out@.to_multiset().add(rest@.filter(record_file_pred()).to_multiset()) == all.filter(
                record_file_pred(),
            ).to_multiset(),
        decreases rest@.len(),
    {
        let ghost before = rest@;
        let name = rest.pop().unwrap();
        proof {
            reveal(Seq::filter);
            assert(before.drop_last() =~= rest@);
        }
        if is_record_file_name(name.as_str()) {
            let mut j: usize = 0;
            while j < out.len() && str_lt(name.as_str(), out[j].as_str())
                invariant
                    j <= out@.len(),
                    j > 0 ==> lex_lt(name@, out@[j - 1]@),
                decreases out@.len() - j,
            {
                j = j + 1;
            }
            let ghost old_out = out@;
            proof {
                if j > 0 {
                    lemma_lex_lt_asymmetric(name@, old_out[j - 1]@);
                }
                to_multiset_insert(old_out, j as int, name);
                to_multiset_build(rest@.filter(record_file_pred()), name);
            }
            out.insert(j, name);
            proof {
                assert forall|k: int| 0 <= k < out@.len() - 1 implies !lex_lt(#[trigger] out@[k]@, out@[k + 1]@) by {
                    if k < j as int - 1 {
                        assert(out@[k] == old_out[k] && out@[k + 1] == old_out[k + 1]);
                    } else if k == j as int - 1 {
                    } else if k == j as int {
                    } else {
                        assert(out@[k] == old_out[k - 1] && out@[k + 1] == old_out[k]);
                    }
                }
                assert(out@.to_multiset().add(rest@.filter(record_file_pred()).to_multiset()) =~= old_out.to_multiset().add(
                    before.filter(record_file_pred()).to_multiset(),
                ));
            }
        }
    }
    proof {
        reveal(Seq::filter);
        to_multiset_len(rest@.filter(record_file_pred()));
        lemma_multiset_empty_len(rest@.filter(record_file_pred()).to_multiset());
        assert(rest@.filter(record_file_pred()).to_multiset() =~= Multiset::empty());
        assert(out@.to_multiset().add(Multiset::empty()) =~= out@.to_multiset());
    }
    out
}

/// How a listing of the history is bounded and filtered: at least one
/// record (ten by default), and `all` (the default), `generated` or `edited`.
pub fn list_settings(limit: Option<u32>, image_type: Option<&str>) -> (r: Result<(usize, String), ToolError>)
    ensures
        ({
            let t = trim_ws(
                match image_type {
                    Some(s) => s@,
                    None => "all"@,
                },
            );
            let n = match limit {
                Some(l) => if l >= 1 { l as int } else { 1 },
                None => 10,
            };
            if t == "all"@ || t == "generated"@ || t == "edited"@ {
                r matches Ok(v) && v.0 == n && v.1@ == t
            } else {
                r matches Err(ToolError::InvalidParams(_))
            }
        }),
{
    let n: u32 = match limit {
        Some(l) => if l >= 1 { l } else { 1 },
        None => 10,
    };
    let t = match image_type {
        Some(s) => trim(s),
        None => trim("all"),
    };
    if str_eq(t, "all") || str_eq(t, "generated") || str_eq(t, "edited") {
        Ok((n as usize, String::from_str(t)))
    } else {
        Err(ToolError::InvalidParams(String::from_str("image_type must be generated, edited or all")))
    }
}

/// A record belongs in a listing filtered by `filter`.
pub fn record_selected(filter: &str, image_type: &str) -> (r: bool)
    ensures
        r == (filter@ == "all"@ || image_type@ == filter@),
{
    str_eq(filter, "all") || str_eq(image_type, filter)
}

/// The records of a listing, gathered from the newest record file on:
/// those of the filtered type, until the limit is reached.
pub struct RecordListing {
    pub limit: usize,
    pub filter: String,
    pub found: Vec<AiImageRecord>,
}

impl RecordListing {
    pub fn new(limit: usize, filter: String) -> (r: RecordListing)
        ensures
            r.limit == limit,
            r.filter@ == filter@,
            r.found@.len() == 0,
    {
        RecordListing { limit, filter, found: Vec::new() }
    }

    /// The limit is reached: no further record file needs to be read.
    pub fn is_full(&self) -> (r: bool)
        ensures
            r == (self.found@.len() >= self.limit),
    {
        self.found.len() >= self.limit
    }

    /// Takes the next record: it is kept when the limit is not reached and
    /// its type passes the filter.
    pub fn offer(&mut self, record: AiImageRecord)
        ensures
            final(self).limit == old(self).limit,
            final(self).filter@ == old(self).filter@,
            final(self).found@ == if old(self).found@.len() < old(self).limit && (old(self).filter@ == "all"@
                || record.image_type@ == old(self).filter@) {
                old(self).found@.push(record)
            } else {
                old(self).found@
            },
    {
        if self.found.len() < self.limit && record_selected(self.filter.as_str(), record.image_type.as_str()) {
            self.found.push(record);
        }
    }
}

} // verus!
