//! Locating the documents to validate: a file path stands for itself; a
//! directory contributes the entries whose file name carries the document
//! extension, in listing order; anything else is an invalid path.

use vstd::prelude::*;
use crate::validate::views_of;
use vstd::string::StrSliceExecFns;

verus! {

/// The suffix of a path after its last separator: the file name.
pub open spec fn file_name_of(p: Seq<char>) -> Seq<char>
    decreases p.len(),
{
    if p.len() > 0 && p.contains('/') {
        file_name_of(p.drop_first())
    } else {
        p
    }
}

/// The extension that marks a document file, dot included.
pub open spec fn doc_extension() -> Seq<char> {
    ".yaml"@
}

/// Whether a path's file name ends in the document extension with a
/// non-empty stem before it; this is when a directory listing keeps it.
pub open spec fn has_doc_extension(p: Seq<char>) -> bool {
    let name = file_name_of(p);
    name.len() > doc_extension().len() && name.skip(
        name.len() - doc_extension().len(),
    ) == doc_extension()
}

/// The entries of a listing that carry the document extension, in order.
pub open spec fn matching_docs(entries: Seq<Seq<char>>) -> Seq<Seq<char>>
    decreases entries.len(),
{
    if entries.len() == 0 {
        Seq::<Seq<char>>::empty()
    } else {
        (if has_doc_extension(entries[0]) {
            seq![entries[0]]
        } else {
            Seq::<Seq<char>>::empty()
        }) + matching_docs(entries.drop_first())
    }
}

/// When no separator stands at `start` or beyond and the character before
/// `start` (if any) is one, the file name is the suffix from `start` on.
proof fn lemma_file_name_skip(p: Seq<char>, start: int)
    requires
        0 <= start <= p.len(),
        forall|k: int| start <= k < p.len() ==> p[k] != '/',
        start > 0 ==> p[start - 1] == '/',
    ensures
        file_name_of(p) == p.skip(start),
    decreases p.len(),
{
    if start == 0 {
        assert(!p.contains('/'));
        assert(p.skip(0) =~= p);
    } else {
        assert(p[start - 1] == '/');
        assert(p.contains('/'));
        let q = p.drop_first();
        assert(q =~= p.skip(1));
        lemma_file_name_skip(q, start - 1);
        assert(q.skip(start - 1) =~= p.skip(start));
    }
}

/// How a path stands in storage, as the caller saw it.
pub enum PathKind {
    /// The path names a regular file.
    File,
    /// The path names a directory.
    Dir,
    /// The path names neither.
    Missing,
}

/// The locator's failure: the path names neither a file nor a directory.
#[derive(Debug, PartialEq, Eq, Structural)]
pub enum LocateError {
    InvalidPath,
}

/// Decides whether a path's file name carries the document extension.
pub fn has_doc_ext(path: &str) -> (r: bool)
    ensures
        r == has_doc_extension(path@),
{
    proof {
        reveal_strlit(".yaml");
    }
    let len = path.unicode_len();
    let mut start: usize = 0;
    let mut i: usize = 0;
    while i < len
        invariant
            len == path@.len(),
            start <= i <= len,
            forall|k: int| start <= k < i ==> path@[k] != '/',
            start > 0 ==> path@[start - 1] == '/',
        decreases len - i,
    {
        if path.get_char(i) == '/' {
            start = i + 1;
        }
        i += 1;
    }
    proof {
        lemma_file_name_skip(path@, start as int);
    }
    let ghost name = path@.skip(start as int);
    let name_len = len - start;
    if name_len <= 5 {
        return false;
    }
    let c0 = path.get_char(len - 5);
    let c1 = path.get_char(len - 4);
    let c2 = path.get_char(len - 3);
    let c3 = path.get_char(len - 2);
    let c4 = path.get_char(len - 1);
    let r = c0 == '.' && c1 == 'y' && c2 == 'a' && c3 == 'm' && c4 == 'l';
    proof {
        let tail = name.skip(name.len() - 5);
        assert(tail.len() == 5);
        assert forall|j: int| 0 <= j < 5 implies tail[j] == path@[len - 5 + j] by {
        }
        if r {
            assert(tail =~= doc_extension());
        } else {
            assert(tail != doc_extension()) by {
                if tail == doc_extension() {
                    assert(tail[0] == '.' && tail[1] == 'y' && tail[2] == 'a' && tail[3] == 'm'
                        && tail[4] == 'l');
                }
            }
        }
    }
    r
}

/// The set a directory listing contributes is exactly the entries with the
/// document extension: nothing else enters, nothing matching is dropped.
pub proof fn lemma_matching_docs_exact(entries: Seq<Seq<char>>, p: Seq<char>)
    ensures
        matching_docs(entries).contains(p) <==> (entries.contains(p) && has_doc_extension(p)),
    decreases entries.len(),
{
    if entries.len() == 0 {
    } else {
        let head: Seq<Seq<char>> = if has_doc_extension(entries[0]) {
            seq![entries[0]]
        } else {
            Seq::<Seq<char>>::empty()
        };
        let rest = matching_docs(entries.drop_first());
        lemma_matching_docs_exact(entries.drop_first(), p);
        assert(matching_docs(entries) == head + rest);
        if matching_docs(entries).contains(p) {
            let i = choose|i: int|
                0 <= i < matching_docs(entries).len() && matching_docs(entries)[i] == p;
            if i < head.len() {
                assert(p == entries[0]);
                assert(entries.contains(p));
            } else {
                assert(rest[i - head.len()] == p);
                assert(rest.contains(p));
                let j = choose|j: int|
                    0 <= j < entries.drop_first().len() && entries.drop_first()[j] == p;
                assert(entries[j + 1] == p);
                assert(entries.contains(p));
            }
        }
        if entries.contains(p) && has_doc_extension(p) {
            let i = choose|i: int| 0 <= i < entries.len() && entries[i] == p;
            if i == 0 {
                assert(head == seq![entries[0]]);
                assert((head + rest)[0] == p);
                assert(matching_docs(entries).contains(p));
            } else {
                assert(entries.drop_first()[i - 1] == p);
                assert(entries.drop_first().contains(p));
                assert(rest.contains(p));
                let j = choose|j: int| 0 <= j < rest.len() && rest[j] == p;
                assert((head + rest)[head.len() + j] == p);
                assert(matching_docs(entries).contains(p));
            }
        }
    }
}

/// Picks the documents a path stands for: the path itself when it is a
/// file, whatever its extension; the matching entries of its listing when
/// it is a directory; an error otherwise.
pub fn select_documents(kind: PathKind, path: &str, entries: Vec<String>) -> (r: Result<
    Vec<String>,
    LocateError,
>)
    ensures
        match kind {
            PathKind::File => r matches Ok(files) && views_of(files@) == seq![path@],
            PathKind::Dir => r matches Ok(files) && views_of(files@) == matching_docs(
                views_of(entries@),
            ),
            PathKind::Missing => r == Err::<Vec<String>, LocateError>(LocateError::InvalidPath),
        },
{
    match kind {
        PathKind::File => {
            let mut files: Vec<String> = Vec::new();
            files.push(path.to_owned());
            proof {
                assert(views_of(files@) =~= seq![path@]);
            }
            Ok(files)
        },
        PathKind::Dir => {
            let mut files: Vec<String> = Vec::new();
            let n = entries.len();
            let mut i: usize = 0;
            proof {
                assert(views_of(entries@).skip(0) =~= views_of(entries@));
            }
            while i < n
                invariant
                    n == entries.len(),
                    i <= n,
                    views_of(files@) + matching_docs(views_of(entries@).skip(i as int))
                        == matching_docs(views_of(entries@)),
                decreases n - i,
            {
                let ghost evs = views_of(entries@);
                proof {
                    assert(evs.skip(i as int)[0] == evs[i as int]);
                    assert(evs[i as int] == entries@[i as int]@);
                    assert(evs.skip(i as int).drop_first() =~= evs.skip(i as int + 1));
                }
                let ghost pre = files@;
                let ghost head = matching_docs(evs.skip(i as int));
                if has_doc_ext(entries[i].as_str()) {
                    let e = entries[i].clone();
                    files.push(e);
                    proof {
                        crate::validate::lemma_views_push(pre, e);
                        assert(head =~= seq![evs[i as int]] + matching_docs(
                            evs.skip(i as int + 1),
                        ));
                        assert(views_of(files@) + matching_docs(evs.skip(i as int + 1))
                            =~= views_of(pre) + head);
                    }
                } else {
                    proof {
                        assert(head =~= matching_docs(evs.skip(i as int + 1)));
                    }
                }
                i += 1;
            }
            proof {
                assert(views_of(entries@).skip(n as int) =~= Seq::<Seq<char>>::empty());
                assert(matching_docs(views_of(entries@).skip(n as int))
                    =~= Seq::<Seq<char>>::empty());
                assert(views_of(files@) + Seq::<Seq<char>>::empty() =~= views_of(files@));
            }
            Ok(files)
        },
        PathKind::Missing => Err(LocateError::InvalidPath),
    }
}

} // verus!
