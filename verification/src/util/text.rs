//! Joining and concatenating pieces of text.

use vstd::prelude::*;
use vstd::string::StringExecFns;

verus! {

/// The pieces written one after another.
pub open spec fn concat(parts: Seq<Seq<char>>) -> Seq<char>
    decreases parts.len(),
{
    if parts.len() == 0 {
        Seq::empty()
    } else {
        concat(parts.drop_last()) + parts.last()
    }
}

/// The pieces written one after another with `separator` between each two
/// neighbours. No separator stands before the first piece or after the last.
pub open spec fn join(parts: Seq<Seq<char>>, separator: Seq<char>) -> Seq<char>
    decreases parts.len(),
{
    if parts.len() == 0 {
        Seq::empty()
    } else if parts.len() == 1 {
        parts[0]
    } else {
        join(parts.drop_last(), separator) + separator + parts.last()
    }
}

/// Concatenating one piece more appends it.
pub proof fn lemma_concat_push(parts: Seq<Seq<char>>, piece: Seq<char>)
    ensures
        concat(parts.push(piece)) == concat(parts) + piece,
{
    assert(parts.push(piece).drop_last() =~= parts);
}

/// The characters of `text`, one element each.
pub fn chars_of(text: &str) -> (chars: Vec<char>)
    ensures
        chars@ == text@,
{
    let mut chars: Vec<char> = Vec::new();
    for c in it: text.chars()
        invariant
            it.seq() == text@,
            chars@ == text@.take(it.index() as int),
    {
        assert(text@.take(it.index() + 1) =~= text@.take(it.index() as int).push(c));
        chars.push(c);
    }
    assert(text@.take(text@.len() as int) =~= text@);
    chars
}

/// Writes the pieces one after another into one string.
pub fn concat_strings(parts: &Vec<String>) -> (whole: String)
    ensures
        whole@ == concat(parts.deep_view()),
{
    let mut whole = String::new();
    let mut done: usize = 0;
    while done < parts.len()
        invariant
            done <= parts.len(),
            whole@ == concat(parts.deep_view().take(done as int)),
        decreases parts.len() - done,
    {
        proof {
            let pieces = parts.deep_view();
            assert(pieces.take(done + 1) =~= pieces.take(done as int).push(pieces[done as int]));
            lemma_concat_push(pieces.take(done as int), pieces[done as int]);
        }
        whole.append(parts[done].as_str());
        done = done + 1;
    }
    assert(parts.deep_view().take(parts.len() as int) =~= parts.deep_view());
    whole
}

/// Writes the pieces into one string with `separator` between neighbours,
/// as `[String]::join` does.
pub fn join_strings(parts: &Vec<String>, separator: &str) -> (whole: String)
    ensures
        whole@ == join(parts.deep_view(), separator@),
{
    let mut whole = String::new();
    let mut done: usize = 0;
    while done < parts.len()
        invariant
            done <= parts.len(),
            whole@ == join(parts.deep_view().take(done as int), separator@),
        decreases parts.len() - done,
    {
        proof {
            let pieces = parts.deep_view();
            assert(pieces.take(done + 1).drop_last() =~= pieces.take(done as int));
            assert(pieces.take(done + 1).last() == pieces[done as int]);
            if done == 0 {
                assert(pieces.take(1)[0] == pieces[0]);
                assert(whole@ + pieces[0] =~= pieces[0]);
            }
        }
        if done > 0 {
            whole.append(separator);
        }
        whole.append(parts[done].as_str());
        done = done + 1;
    }
    assert(parts.deep_view().take(parts.len() as int) =~= parts.deep_view());
    whole
}

/// A copy of a list of texts.
pub fn clone_strings(texts: &Vec<String>) -> (copy: Vec<String>)
    ensures
        copy.deep_view() == texts.deep_view(),
{
    let mut copy: Vec<String> = Vec::new();
    let mut done: usize = 0;
    while done < texts.len()
        invariant
            done <= texts.len(),
            copy.deep_view() == texts.deep_view().take(done as int),
        decreases texts.len() - done,
    {
        let ghost before = copy.deep_view();
        copy.push(texts[done].clone());
        assert(copy.deep_view() =~= before.push(texts[done as int]@));
        assert(copy.deep_view() =~= texts.deep_view().take(done + 1));
        done = done + 1;
    }
    assert(texts.deep_view().take(texts.len() as int) =~= texts.deep_view());
    copy
}

} // verus!
