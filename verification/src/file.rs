//! Which files can be opened: of the names in a directory, those with the
//! extension `toml`, ordered by name.
//!
//! Reading the directory and reading and writing the files is the caller's
//! part; the names come in and go out as plain strings.

use vstd::prelude::*;
use vstd::string::*;
use vstd::multiset::*;
use vstd::seq_lib::*;
use crate::text::to_chars;

verus! {

/// `a` comes before `b`, or equals it, in the order of strings: character
/// by character in the order of their code points, a string before each of
/// its extensions.
pub open spec fn text_le(a: Seq<char>, b: Seq<char>) -> bool
    decreases a.len(),
{
    if a.len() == 0 {
        true
    } else if b.len() == 0 {
        false
    } else if a[0] != b[0] {
        a[0] < b[0]
    } else {
        text_le(a.drop_first(), b.drop_first())
    }
}

/// The file of this name has the extension `toml`: the name ends in
/// `.toml`, and has something before that.
pub open spec fn has_toml_extension(name: Seq<char>) -> bool {
    name.len() > 5 && name.subrange(name.len() - 5, name.len() as int) == ".toml"@
}

/// The names of `names` that have the extension `toml`, in order.
pub open spec fn toml_names(names: Seq<String>) -> Seq<String>
    decreases names.len(),
{
    if names.len() == 0 {
        Seq::empty()
    } else {
        let rest = toml_names(names.drop_last());
        if has_toml_extension(names.last()@) {
            rest.push(names.last())
        } else {
            rest
        }
    }
}

/// Each name comes before, or equals, every name after it.
pub open spec fn sorted_by_name(names: Seq<String>) -> bool {
    forall|i: int, j: int| 0 <= i < j < names.len() ==> text_le(names[i]@, names[j]@)
}

/// Of two strings one comes before the other, or they are equal.
pub proof fn lemma_text_le_total(a: Seq<char>, b: Seq<char>)
    ensures
        text_le(a, b) || text_le(b, a),
    decreases a.len(),
{
    if a.len() > 0 && b.len() > 0 {
        if a[0] == b[0] {
            lemma_text_le_total(a.drop_first(), b.drop_first());
        } else {
        }
    }
}

/// The order of strings is transitive.
pub proof fn lemma_text_le_transitive(a: Seq<char>, b: Seq<char>, c: Seq<char>)
    requires
        text_le(a, b),
        text_le(b, c),
    ensures
        text_le(a, c),
    decreases a.len(),
{
    if a.len() > 0 && b.len() > 0 && c.len() > 0 && a[0] == b[0] && b[0] == c[0] {
        lemma_text_le_transitive(a.drop_first(), b.drop_first(), c.drop_first());
    }
}

/// Whether `a` comes before `b` or equals it.
pub fn text_before_or_equal(a: &str, b: &str) -> (le: bool)
    ensures
        le == text_le(a@, b@),
{
    let left = to_chars(a);
    let right = to_chars(b);
    let mut i: usize = 0;
    assert(left@.skip(0) =~= left@ && right@.skip(0) =~= right@);
    while i < left.len() && i < right.len() && left[i] == right[i]
        invariant
            i <= left@.len(),
            i <= right@.len(),
            left@ == a@,
            right@ == b@,
            text_le(a@, b@) == text_le(left@.skip(i as int), right@.skip(i as int)),
        decreases left@.len() - i,
    {
        assert(left@.skip(i as int).drop_first() =~= left@.skip(i + 1));
        assert(right@.skip(i as int).drop_first() =~= right@.skip(i + 1));
        i += 1;
    }
    proof {
        let l = left@.skip(i as int);
        let r = right@.skip(i as int);
        assert(l.len() == left@.len() - i && r.len() == right@.len() - i);
        if i < left@.len() && i < right@.len() {
            assert(l[0] == left@[i as int] && r[0] == right@[i as int]);
            assert(text_le(l, r) == (l[0] < r[0]));
        } else if i < left@.len() {
            assert(!text_le(l, r));
        } else {
            assert(text_le(l, r));
        }
    }
    if i == left.len() {
        true
    } else if i == right.len() {
        false
    } else {
        let x = left[i];
        let y = right[i];
        x < y
    }
}

/// Whether the file of this name has the extension `toml`.
pub fn is_toml_file_name(name: &str) -> (toml: bool)
    ensures
        toml == has_toml_extension(name@),
{
    let chars = to_chars(name);
    let n = chars.len();
    if n <= 5 {
        return false;
    }
    proof {
        reveal_strlit(".toml");
    }
    let toml = chars[n - 5] == '.' && chars[n - 4] == 't' && chars[n - 3] == 'o' && chars[n - 2]
        == 'm' && chars[n - 1] == 'l';
    proof {
        let tail = name@.subrange(n - 5, n as int);
        if toml {
            assert(tail =~= ".toml"@);
        } else {
            assert(tail[0] == chars@[n - 5]);
            assert(tail[1] == chars@[n - 4]);
            assert(tail[2] == chars@[n - 3]);
            assert(tail[3] == chars@[n - 2]);
            assert(tail[4] == chars@[n - 1]);
        }
    }
    toml
}

/// Lists the breadboard files of a directory. It holds no state.
pub struct FileManager;

impl FileManager {
    /// A file manager.
    pub fn new() -> (manager: Self) {
        FileManager
    }

    /// Of the file names `names`, those with the extension `toml`, each as
    /// often as it was given, in ascending order.
    pub fn toml_files(&self, names: Vec<String>) -> (files: Vec<String>)
        ensures
            sorted_by_name(files@),
            files@.to_multiset() == toml_names(names@).to_multiset(),
    {
        let mut rest = names;
        let mut files: Vec<String> = Vec::new();
        assert(files@.to_multiset().add(toml_names(rest@).to_multiset()) =~= toml_names(
            names@,
        ).to_multiset()) by {
            broadcast use group_to_multiset_ensures;
            assert(files@.to_multiset() =~= Multiset::<String>::empty());
        }
        while rest.len() > 0
            invariant
                sorted_by_name(files@),
                files@.to_multiset().add(toml_names(rest@).to_multiset()) == toml_names(
                    names@,
                ).to_multiset(),
            decreases rest@.len(),
        {
            let ghost before = rest@;
            let ghost listed = files@;
            let name = rest.pop().unwrap();
            assert(rest@ =~= before.drop_last());
            if is_toml_file_name(name.as_str()) {
                let mut at: usize = 0;
                while at < files.len() && text_before_or_equal(files[at].as_str(), name.as_str())
                    invariant
                        at <= files@.len(),
                        files@ == listed,
                        forall|k: int| 0 <= k < at ==> text_le(listed[k]@, name@),
                    decreases files@.len() - at,
                {
                    at += 1;
                }
                files.insert(at, name);
                proof {
                    let grown = files@;
                    assert(grown =~= listed.insert(at as int, name));
                    assert forall|i: int, j: int| 0 <= i < j < grown.len() implies text_le(
                        grown[i]@,
                        grown[j]@,
                    ) by {
                        if j == at {
                            assert(grown[i] == listed[i]);
                        } else if i == at {
                            assert(grown[j] == listed[j - 1]);
                            lemma_text_le_total(listed[at as int]@, name@);
                            if j - 1 > at {
                                assert(text_le(listed[at as int]@, listed[j - 1]@));
                                lemma_text_le_transitive(name@, listed[at as int]@, listed[j - 1]@);
                            }
                        } else {
                            let a = if i < at {
                                i
                            } else {
                                i - 1
                            };
                            let b = if j < at {
                                j
                            } else {
                                j - 1
                            };
                            assert(grown[i] == listed[a]);
                            assert(grown[j] == listed[b]);
                        }
                    }
                    assert(grown.remove(at as int) =~= listed);
                    to_multiset_remove(grown, at as int);
                    broadcast use group_to_multiset_ensures;
                    assert(grown.to_multiset().count(name) > 0);
                    assert(grown.to_multiset() =~= listed.to_multiset().insert(name));
                    assert(toml_names(before).to_multiset() =~= toml_names(
                        rest@,
                    ).to_multiset().insert(name));
                    assert(grown.to_multiset().add(toml_names(rest@).to_multiset())
                        =~= listed.to_multiset().add(toml_names(before).to_multiset()));
                }
            }
        }
        assert(toml_names(rest@).to_multiset() =~= Multiset::<String>::empty()) by {
            broadcast use group_to_multiset_ensures;
            assert(toml_names(rest@) =~= Seq::<String>::empty());
        }
        assert(files@.to_multiset() =~= toml_names(names@).to_multiset());
        files
    }
}

} // verus!
