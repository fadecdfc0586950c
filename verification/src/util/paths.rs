//! Names of files: what a path says of the kind of a file.

use vstd::prelude::*;
use vstd::string::StrSliceExecFns;

verus! {

/// The place of the last `mark` in a text; -1 where the text holds none.
pub open spec fn last_place(text: Seq<char>, mark: char) -> int
    decreases text.len(),
{
    if text.len() == 0 {
        -1
    } else if text.last() == mark {
        text.len() - 1
    } else {
        last_place(text.drop_last(), mark)
    }
}

/// The last place of a mark is the one after which no other follows.
pub proof fn lemma_last_place(text: Seq<char>, mark: char, at: int)
    requires
        -1 <= at < text.len(),
        at >= 0 ==> text[at] == mark,
        forall|k: int| at < k < text.len() ==> text[k] != mark,
    ensures
        last_place(text, mark) == at,
    decreases text.len(),
{
    if text.len() > 0 && text.last() != mark {
        lemma_last_place(text.drop_last(), mark, at);
    }
}

/// The name of the file that a path ends in: what follows its last `/`.
pub open spec fn file_name(path: Seq<char>) -> Seq<char> {
    path.skip(last_place(path, '/') + 1)
}

/// The extension that a path ends in, as it is written: what follows the
/// last dot of the file's name. A name without a dot has none, and neither
/// has one whose only dot stands first, nor the name `..`.
pub open spec fn extension_of(path: Seq<char>) -> Option<Seq<char>> {
    let name = file_name(path);
    let dot = last_place(name, '.');
    if dot <= 0 || name == seq!['.', '.'] {
        None
    } else {
        Some(name.skip(dot + 1))
    }
}

/// A text in lower case, as `str::to_lowercase` gives it.
pub uninterp spec fn lowered(text: Seq<char>) -> Seq<char>;

/// A text in lower case. This is `str::to_lowercase` of the standard
/// library, taken on trust; the contract gives its result a name and says
/// no more of it.
#[verifier::external_body]
fn lower_case(text: &str) -> (lower: String)
    ensures
        lower@ == lowered(text@),
{
    text.to_lowercase()
}

/// The place of the last `mark` in a text, counted from one; 0 where the
/// text holds none.
fn after_last(text: &str, mark: char) -> (at: usize)
    ensures
        at == last_place(text@, mark) + 1,
        at <= text@.len(),
        at > 0 ==> text@[at - 1] == mark,
{
    let mut at: usize = text.unicode_len();
    while at > 0 && text.get_char(at - 1) != mark
        invariant
            at <= text@.len(),
            forall|k: int| at <= k < text@.len() ==> text@[k] != mark,
        decreases at,
    {
        at -= 1;
    }
    proof {
        lemma_last_place(text@, mark, at - 1);
    }
    at
}

/// The extension of a file, in lower case: see `extension_of`. Parts of a
/// path are told apart by `/`.
pub fn get_extension(path: &str) -> (ext: Option<String>)
    ensures
        match extension_of(path@) {
            Some(written) => ext is Some && ext->0@ == lowered(written),
            None => ext is None,
        },
{
    let end = path.unicode_len();
    let name = path.substring_char(after_last(path, '/'), end);
    assert(name@ =~= file_name(path@));
    let length = name.unicode_len();
    let dot = after_last(name, '.');
    if dot <= 1 {
        return None;
    }
    if length == 2 && name.get_char(0) == '.' {
        assert(name@ =~= seq!['.', '.']);
        return None;
    }
    assert(name@ != seq!['.', '.']) by {
        if name@ == seq!['.', '.'] {
            assert(seq!['.', '.'].len() == 2);
            assert(seq!['.', '.'][0] == '.');
        }
    }
    let written = name.substring_char(dot, length);
    assert(written@ =~= name@.skip(dot as int));
    Some(lower_case(written))
}

} // verus!
