//! Paths as they are written in a book: parts separated by `/`.
//!
//! A path is read as text. The file name is what follows the last `/`, the
//! directory what stands before it. Only `/` parts a path: every other
//! character, `\` among them, is a character of a name. A caller on a system
//! that parts its paths otherwise hands over the path of a chapter with `/`
//! in place of the system's separator.

use crate::text::{
    characters,
    find_last,
    last_index_of,
    lemma_last_index_is,
    lemma_last_index_of,
    part,
};
use vstd::prelude::*;

verus! {

/// What follows the last `/` of a path; the whole path where it has none.
pub open spec fn file_name(path: Seq<char>) -> Seq<char> {
    path.subrange(last_index_of(path, '/') + 1, path.len() as int)
}

/// A file name without its extension: what stands before the last `.`. A
/// name without a `.`, and one whose only `.` is its first character, has no
/// extension and is kept whole.
pub open spec fn stem(name: Seq<char>) -> Seq<char> {
    let dot = last_index_of(name, '.');
    if dot > 0 {
        name.subrange(0, dot)
    } else {
        name
    }
}

/// The name that a quiz goes by: the file name of its path without the
/// extension.
pub open spec fn quiz_name(path: Seq<char>) -> Seq<char> {
    stem(file_name(path))
}

/// The directory that holds the file at `path`: what stands before the last
/// `/`. It is empty where the path has no `/`, and `/` where the only one is
/// the first character.
pub open spec fn containing_directory(path: Seq<char>) -> Seq<char> {
    let slash = last_index_of(path, '/');
    if slash < 0 {
        Seq::empty()
    } else if slash == 0 {
        seq!['/']
    } else {
        path.subrange(0, slash)
    }
}

/// The path that `reference` names when it is written in a file of
/// `directory`. A reference that begins with `/` stands for itself, and so
/// does every reference where the directory is empty; every other one is
/// joined to the directory by one `/`.
pub open spec fn resolved(directory: Seq<char>, reference: Seq<char>) -> Seq<char> {
    if directory.len() == 0 || (reference.len() > 0 && reference[0] == '/') {
        reference
    } else if directory.last() == '/' {
        directory + reference
    } else {
        directory + seq!['/'] + reference
    }
}

/// The file name of a path stays when the path is resolved against a
/// directory, and with it the name of the quiz.
pub proof fn lemma_resolved_keeps_name(directory: Seq<char>, reference: Seq<char>)
    ensures
        file_name(resolved(directory, reference)) == file_name(reference),
        quiz_name(resolved(directory, reference)) == quiz_name(reference),
{
    let path = resolved(directory, reference);
    if path != reference {
        let shift = path.len() - reference.len();
        let slash = last_index_of(reference, '/');
        lemma_last_index_of(reference, '/');
        assert(path[shift - 1] == '/');
        assert forall|j: int| 0 <= j < reference.len() implies path[shift + j] == reference[j] by {}
        if slash >= 0 {
            lemma_last_index_is(path, '/', shift + slash);
        } else {
            lemma_last_index_is(path, '/', shift - 1);
        }
        assert(file_name(path) =~= file_name(reference));
    }
}

/// A quiz is named by the base name of its file: where a path ends in a
/// `/`, a base name, a `.` and an extension, the name of the quiz is the
/// base name. The base name is not empty and holds no `/`; the extension
/// holds neither `/` nor `.`.
pub proof fn lemma_quiz_name_is_base_name(
    directory: Seq<char>,
    base: Seq<char>,
    extension: Seq<char>,
)
    requires
        base.len() > 0,
        !base.contains('/'),
        !extension.contains('/'),
        !extension.contains('.'),
    ensures
        quiz_name(directory + seq!['/'] + base + seq!['.'] + extension) == base,
        quiz_name(base + seq!['.'] + extension) == base,
{
    let file = base + seq!['.'] + extension;
    assert forall|j: int| 0 <= j < file.len() implies file[j] != '/' by {
        if j < base.len() {
            assert(base.contains(file[j]));
        } else if j > base.len() {
            assert(extension[j - base.len() - 1] == file[j]);
            assert(extension.contains(file[j]));
        }
    }
    assert forall|j: int| base.len() < j < file.len() implies file[j] != '.' by {
        assert(extension[j - base.len() - 1] == file[j]);
        assert(extension.contains(file[j]));
    }
    lemma_last_index_is(file, '/', -1);
    lemma_last_index_is(file, '.', base.len() as int);
    assert(file_name(file) =~= file);
    assert(stem(file) =~= base);
    let path = directory + seq!['/'] + base + seq!['.'] + extension;
    assert(path =~= directory + seq!['/'] + file);
    assert(path[directory.len() as int] == '/');
    assert forall|j: int| directory.len() < j < path.len() implies path[j] != '/' by {
        assert(path[j] == file[j - directory.len() - 1]);
    }
    lemma_last_index_is(path, '/', directory.len() as int);
    assert(file_name(path) =~= file);
}

/// The name of the quiz whose definition lies at `path`.
pub fn name_of_quiz(path: &str) -> (name: String)
    ensures
        name@ == quiz_name(path@),
{
    let chars = characters(path);
    let start = match find_last(&chars, '/') {
        Some(slash) => slash + 1,
        None => 0,
    };
    let file = part(path, start, chars.len());
    let file_chars = characters(file.as_str());
    match find_last(&file_chars, '.') {
        Some(dot) => {
            if dot > 0 {
                part(file.as_str(), 0, dot)
            } else {
                file
            }
        },
        None => file,
    }
}

/// The directory of the file at `path`.
pub fn directory_of(path: &str) -> (directory: String)
    ensures
        directory@ == containing_directory(path@),
{
    let chars = characters(path);
    match find_last(&chars, '/') {
        Some(slash) => {
            if slash == 0 {
                proof {
                    assert(path@.subrange(0, 1) =~= seq!['/']);
                }
                part(path, 0, 1)
            } else {
                part(path, 0, slash)
            }
        },
        None => {
            proof {
                assert(path@.subrange(0, 0) =~= Seq::empty());
            }
            part(path, 0, 0)
        },
    }
}

/// The path of the file that `reference` names from within `directory`.
pub fn resolve(directory: &str, reference: &str) -> (path: String)
    ensures
        path@ == resolved(directory@, reference@),
{
    let dir = characters(directory);
    let target = characters(reference);
    if dir.len() == 0 || (target.len() > 0 && target[0] == '/') {
        proof {
            assert(reference@.subrange(0, reference@.len() as int) =~= reference@);
        }
        part(reference, 0, target.len())
    } else {
        proof {
            assert(directory@.subrange(0, directory@.len() as int) =~= directory@);
            reveal_strlit("/");
            assert("/"@ =~= seq!['/']);
        }
        let mut path = part(directory, 0, dir.len());
        if dir[dir.len() - 1] != '/' {
            path.append("/");
        }
        path.append(reference);
        path
    }
}

} // verus!
