//! The list of root markers: file names whose presence in a directory makes
//! it a project root, written as one text with commas between the names.

use vstd::prelude::*;
use vstd::string::StrSliceExecFns;
use crate::text::texts;

verus! {

/// What `str::trim` leaves of a text: the text without the white space at
/// its start and at its end.
pub uninterp spec fn trimmed(text: Seq<char>) -> Seq<char>;

/// Calls `str::trim`. The result is the named rest of the text.
#[verifier::external_body]
fn trim_text(text: &str) -> (rest: &str)
    ensures
        rest@ == trimmed(text@),
{
    text.trim()
}

/// The fields of a text: the stretches between its commas, in order. A text
/// with `n` commas has `n + 1` fields, some of which may be empty.
pub open spec fn fields(text: Seq<char>) -> Seq<Seq<char>>
    decreases text.len(),
{
    if text.len() == 0 {
        seq![Seq::empty()]
    } else {
        let before = fields(text.drop_last());
        if text.last() == ',' {
            before.push(Seq::empty())
        } else {
            before.drop_last().push(before.last().push(text.last()))
        }
    }
}

/// The names among some fields: each field trimmed, and those dropped of
/// which nothing is left.
pub open spec fn names(fields: Seq<Seq<char>>) -> Seq<Seq<char>>
    decreases fields.len(),
{
    if fields.len() == 0 {
        Seq::empty()
    } else {
        let before = names(fields.drop_last());
        let name = trimmed(fields.last());
        if name.len() == 0 {
            before
        } else {
            before.push(name)
        }
    }
}

/// The markers that a comma-separated text lists, in the order of the text,
/// which is the order in which the search tries them.
pub open spec fn marker_list(text: Seq<char>) -> Seq<Seq<char>> {
    names(fields(text))
}

/// No name is empty.
pub proof fn lemma_names_are_not_empty(fields: Seq<Seq<char>>)
    ensures
        forall|i: int| 0 <= i < names(fields).len() ==> (#[trigger] names(fields)[i]).len() > 0,
    decreases fields.len(),
{
    if fields.len() > 0 {
        let before = names(fields.drop_last());
        lemma_names_are_not_empty(fields.drop_last());
        assert forall|i: int| 0 <= i < names(fields).len() implies (#[trigger] names(
            fields,
        )[i]).len() > 0 by {
            if i < before.len() {
                assert(names(fields)[i] == before[i]);
            }
        }
    }
}

/// Reads the list of root markers from a comma-separated text. White space
/// around a name is dropped, and so is a name of which nothing is left; the
/// order is kept. No marker of the result is empty.
pub fn parse_root_files(text: &str) -> (markers: Vec<String>)
    ensures
        texts(markers@) == marker_list(text@),
        forall|i: int| 0 <= i < markers.len() ==> (#[trigger] markers[i])@.len() > 0,
{
    let n = text.unicode_len();
    let mut markers: Vec<String> = Vec::new();
    let mut start: usize = 0;
    let mut i: usize = 0;
    let ghost mut done: Seq<Seq<char>> = Seq::empty();
    assert(text@.take(0) =~= Seq::empty());
    assert(text@.subrange(0, 0) =~= Seq::empty());
    assert(fields(text@.take(0)) =~= done.push(text@.subrange(0, 0)));
    assert(texts(markers@) =~= names(done));
    while i < n
        invariant
            n == text@.len(),
            start <= i <= n,
            fields(text@.take(i as int)) == done.push(text@.subrange(start as int, i as int)),
            texts(markers@) == names(done),
        decreases n - i,
    {
        let c = text.get_char(i);
        let ghost scanned = text@.take(i as int);
        let ghost field = text@.subrange(start as int, i as int);
        assert(text@.take(i + 1).drop_last() =~= scanned);
        assert(text@.take(i + 1).last() == c);
        assert(done.push(field).drop_last() =~= done);
        if c == ',' {
            let raw = text.substring_char(start, i);
            let name = trim_text(raw);
            if !name.is_empty() {
                let ghost earlier = texts(markers@);
                markers.push(name.to_owned());
                assert(texts(markers@) =~= earlier.push(trimmed(field)));
            }
            proof {
                done = done.push(field);
                assert(done.drop_last() =~= fields(scanned).drop_last());
            }
            start = i + 1;
            assert(text@.subrange(start as int, i + 1) =~= Seq::empty());
        } else {
            assert(text@.subrange(start as int, i + 1) =~= field.push(c));
        }
        i += 1;
    }
    assert(text@.take(n as int) =~= text@);
    let raw = text.substring_char(start, n);
    let name = trim_text(raw);
    let ghost all = done.push(text@.subrange(start as int, n as int));
    assert(all.drop_last() =~= done);
    if !name.is_empty() {
        let ghost earlier = texts(markers@);
        markers.push(name.to_owned());
        assert(texts(markers@) =~= earlier.push(name@));
    }
    proof {
        lemma_names_are_not_empty(fields(text@));
        assert forall|i: int| 0 <= i < markers.len() implies (#[trigger] markers[i])@.len() > 0 by {
            assert(names(fields(text@))[i] == markers[i]@);
        }
    }
    markers
}

} // verus!
