//! Paths as text: a name below a directory, plain names, the final
//! component, and the candidates among which a mount directory is chosen.

use crate::text::{decimal, decimal_string, lemma_decimal_is_digits, push_char};
use vstd::prelude::*;
use vstd::string::StringExecFns;

verus! {

/// The name of the empty file that marks a directory as made for a mount.
pub const IDENTIFY_FILE: &'static str = ".create_by_usbmount";

/// Whether a name is a single component that stays where it is put: it is
/// not empty, holds no `/`, and is neither `.` nor `..`.
pub open spec fn plain_name(name: Seq<char>) -> bool {
    &&& name.len() > 0
    &&& forall|i: int| 0 <= i < name.len() ==> name[i] != '/'
    &&& name != seq!['.']
    &&& name != seq!['.', '.']
}

/// A path as the beginning of the paths below it: the path, then a `/`
/// unless the path is empty or ends in one.
pub open spec fn as_directory(path: Seq<char>) -> Seq<char> {
    if path.len() > 0 && path.last() != '/' {
        path + seq!['/']
    } else {
        path
    }
}

/// `name` below `directory`: the directory, then a `/` unless the directory
/// is empty or ends in one, then the name. The name never takes the place
/// of the directory, whatever it begins with.
pub open spec fn below(directory: Seq<char>, name: Seq<char>) -> Seq<char> {
    as_directory(directory) + name
}

/// The index of the last `/` of a path, or -1 when it has none.
pub open spec fn last_slash(path: Seq<char>) -> int
    decreases path.len(),
{
    if path.len() == 0 {
        -1
    } else if path.last() == '/' {
        path.len() - 1
    } else {
        last_slash(path.drop_last())
    }
}

/// The last `/` of a path lies within it.
pub proof fn lemma_last_slash_within(path: Seq<char>)
    ensures
        -1 <= last_slash(path) < path.len(),
        last_slash(path) >= 0 ==> path[last_slash(path)] == '/',
        forall|j: int| last_slash(path) < j < path.len() ==> path[j] != '/',
    decreases path.len(),
{
    if path.len() > 0 && path.last() != '/' {
        lemma_last_slash_within(path.drop_last());
        assert forall|j: int| last_slash(path) < j < path.len() implies path[j] != '/' by {
            if j < path.len() - 1 {
                assert(path[j] == path.drop_last()[j]);
            }
        }
    }
}

/// The final component of a path: what follows its last `/`, leaving aside
/// empty components and `.`; a path that ends in `..` or has no component
/// left has none.
pub open spec fn final_component(path: Seq<char>) -> Option<Seq<char>>
    decreases path.len(),
    via final_component_decreases
{
    let cut = last_slash(path);
    let name = path.skip(cut + 1);
    if name.len() == 0 || name == seq!['.'] {
        if cut < 0 {
            None
        } else {
            final_component(path.take(cut))
        }
    } else if name == seq!['.', '.'] {
        None
    } else {
        Some(name)
    }
}

/// What is left of a path before its last `/` is shorter than the path.
#[via_fn]
proof fn final_component_decreases(path: Seq<char>) {
    lemma_last_slash_within(path);
}

/// The path that is tried at the given attempt: the first candidate
/// itself, then the first candidate followed by `-0`, `-1`, and so on.
pub open spec fn candidate(first: Seq<char>, attempt: nat) -> Seq<char> {
    if attempt == 0 {
        first
    } else {
        first + seq!['-'] + decimal((attempt - 1) as nat)
    }
}

/// The path of the marker file of a directory.
pub open spec fn marker_of(directory: Seq<char>) -> Seq<char> {
    below(directory, IDENTIFY_FILE@)
}

/// The path of `name` below `directory`.
pub fn path_below(directory: &str, name: &str) -> (path: String)
    ensures
        path@ == below(directory@, name@),
{
    let len = directory.unicode_len();
    let mut path = directory.to_owned();
    if len > 0 && directory.get_char(len - 1) != '/' {
        push_char(&mut path, '/');
    }
    path.append(name);
    path
}

/// The path of the marker file of a directory.
pub fn marker_path(directory: &str) -> (path: String)
    ensures
        path@ == marker_of(directory@),
{
    path_below(directory, IDENTIFY_FILE)
}

/// The path that is tried at the given attempt.
pub fn candidate_path(first: &String, attempt: u64) -> (path: String)
    ensures
        path@ == candidate(first@, attempt as nat),
{
    let mut path = first.clone();
    if attempt > 0 {
        push_char(&mut path, '-');
        path.append(decimal_string(attempt - 1).as_str());
    }
    path
}

/// The characters of a text, one by one.
fn chars_of(text: &str) -> (chars: Vec<char>)
    ensures
        chars@ == text@,
{
    let len = text.unicode_len();
    let mut chars: Vec<char> = Vec::new();
    let mut i: usize = 0;
    while i < len
        invariant
            i <= len,
            len == text@.len(),
            chars@ == text@.take(i as int),
        decreases len - i,
    {
        chars.push(text.get_char(i));
        i = i + 1;
    }
    chars
}

/// The text made of the characters from `from` up to `to`.
fn string_of(chars: &Vec<char>, from: usize, to: usize) -> (text: String)
    requires
        from <= to <= chars.len(),
    ensures
        text@ == chars@.subrange(from as int, to as int),
{
    let mut text = String::new();
    let mut i: usize = from;
    while i < to
        invariant
            from <= i <= to <= chars.len(),
            text@ == chars@.subrange(from as int, i as int),
        decreases to - i,
    {
        push_char(&mut text, chars[i]);
        i = i + 1;
    }
    text
}

/// A place without `/` after it up to the end, with a `/` or the start
/// before it, follows the last `/`.
proof fn lemma_last_slash_found(path: Seq<char>, cut: int)
    requires
        0 <= cut <= path.len(),
        cut > 0 ==> path[cut - 1] == '/',
        forall|j: int| cut <= j < path.len() ==> path[j] != '/',
    ensures
        last_slash(path) == cut - 1,
    decreases path.len(),
{
    if path.len() > cut {
        lemma_last_slash_found(path.drop_last(), cut);
    }
}

/// The final component of a path, if it has one.
pub fn file_name(path: &str) -> (name: Option<String>)
    ensures
        name.deep_view() == final_component(path@),
{
    let chars = chars_of(path);
    let mut end: usize = chars.len();
    assert(path@.take(end as int) =~= path@);
    loop
        invariant
            chars@ == path@,
            end <= chars.len(),
            final_component(path@) == final_component(path@.take(end as int)),
        decreases end,
    {
        let ghost prefix = path@.take(end as int);
        let mut cut: usize = end;
        while cut > 0 && chars[cut - 1] != '/'
            invariant
                chars@ == path@,
                cut <= end <= chars.len(),
                forall|j: int| cut <= j < end ==> chars@[j] != '/',
            decreases cut,
        {
            cut = cut - 1;
        }
        proof {
            lemma_last_slash_found(prefix, cut as int);
        }
        let len = end - cut;
        if len == 0 || (len == 1 && chars[cut] == '.') {
            proof {
                if len == 1 {
                    assert(prefix.skip(cut as int) =~= seq!['.']);
                }
            }
            if cut == 0 {
                return None;
            }
            proof {
                assert(prefix.take(cut - 1) =~= path@.take(cut - 1));
            }
            end = cut - 1;
        } else if len == 2 && chars[cut] == '.' && chars[cut + 1] == '.' {
            assert(prefix.skip(cut as int) =~= seq!['.', '.']);
            return None;
        } else {
            let name = string_of(&chars, cut, end);
            proof {
                let text = prefix.skip(cut as int);
                if text == seq!['.'] {
                    assert(text.len() == 1 && text[0] == '.');
                }
            }
            return Some(name);
        }
    }
}

/// The final component of a path is a plain name.
pub proof fn lemma_final_component_is_plain(path: Seq<char>)
    ensures
        final_component(path) matches Some(name) ==> plain_name(name),
    decreases path.len(),
{
    lemma_last_slash_within(path);
    let cut = last_slash(path);
    let name = path.skip(cut + 1);
    if name.len() == 0 || name == seq!['.'] {
        if cut >= 0 {
            lemma_final_component_is_plain(path.take(cut));
        }
    } else {
        assert forall|i: int| 0 <= i < name.len() implies name[i] != '/' by {}
    }
}

/// The candidates for a plain name are plain names themselves: a suffix
/// adds no `/` and makes neither `.` nor `..` of it.
pub proof fn lemma_candidate_is_plain(name: Seq<char>, attempt: nat)
    requires
        plain_name(name),
    ensures
        plain_name(candidate(name, attempt)),
{
    if attempt > 0 {
        let path = candidate(name, attempt);
        lemma_decimal_is_digits((attempt - 1) as nat);
        assert forall|i: int| 0 <= i < path.len() implies path[i] != '/' by {}
    }
}

/// The candidates for a name below a directory are the candidates for the
/// name, below that directory.
pub proof fn lemma_candidate_below(directory: Seq<char>, name: Seq<char>, attempt: nat)
    ensures
        candidate(below(directory, name), attempt) == below(directory, candidate(name, attempt)),
{
}

} // verus!
