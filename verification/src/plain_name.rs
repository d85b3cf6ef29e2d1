//! File names that stay inside the directory they are put in.
//!
//! A name that comes over the network is not trusted to be a name. Before a
//! file is created under it, the characters that lead out of a directory or
//! that file systems refuse are taken out, and a name that is left empty or
//! made of dots alone is replaced.

use vstd::prelude::*;
use vstd::string::StringExecFns;

verus! {

/// The characters that are taken out of a file name: `< > : " / \ | ? *`.
pub open spec fn is_path_control_char(c: char) -> bool {
    c == '<' || c == '>' || c == ':' || c == '"' || c == '/' || c == '\\' || c == '|' || c == '?'
        || c == '*'
}

/// Whether a text holds nothing but dots. The empty text, `.` and `..` do.
pub open spec fn only_dots(s: Seq<char>) -> bool {
    forall|i: int| 0 <= i < s.len() ==> #[trigger] s[i] == '.'
}

/// A name without its path-control characters; the others keep their order.
pub open spec fn stripped(name: Seq<char>) -> Seq<char> {
    name.filter(|c: char| !is_path_control_char(c))
}

/// The name that stands in for one that cannot be used.
pub open spec fn fallback_name() -> Seq<char> {
    "unknown_file"@
}

/// The file name that is used for an announced name: the name without its
/// path-control characters, or the fallback where nothing but dots is left.
pub open spec fn plain_name_spec(name: Seq<char>) -> Seq<char> {
    if only_dots(stripped(name)) {
        fallback_name()
    } else {
        stripped(name)
    }
}

/// Whether a text names a file in the directory it is joined to: it holds no
/// separator and no other path-control character, and it is not empty, not
/// `.` and not `..`.
pub open spec fn is_plain_name(name: Seq<char>) -> bool {
    &&& forall|i: int| 0 <= i < name.len() ==> !is_path_control_char(#[trigger] name[i])
    &&& !only_dots(name)
}

/// Whether `c` is one of the path-control characters.
pub fn is_path_control(c: char) -> (yes: bool)
    ensures
        yes == is_path_control_char(c),
{
    c == '<' || c == '>' || c == ':' || c == '"' || c == '/' || c == '\\' || c == '|' || c == '?'
        || c == '*'
}

/// The fallback is a plain name itself.
pub proof fn lemma_fallback_is_plain()
    ensures
        is_plain_name(fallback_name()),
{
    reveal_strlit("unknown_file");
    let f = fallback_name();
    assert(f =~= seq!['u', 'n', 'k', 'n', 'o', 'w', 'n', '_', 'f', 'i', 'l', 'e']);
    assert(f[0] == 'u');
}

/// Whatever is announced, the name that is used is a plain name.
pub proof fn lemma_plain_name_is_plain(name: Seq<char>)
    ensures
        is_plain_name(plain_name_spec(name)),
{
    let keep = |c: char| !is_path_control_char(c);
    let clean = stripped(name);
    if only_dots(clean) {
        lemma_fallback_is_plain();
    } else {
        assert forall|i: int| 0 <= i < clean.len() implies !is_path_control_char(
            #[trigger] clean[i],
        ) by {
            name.lemma_filter_pred(keep, i);
        }
    }
}

/// The file name to use for an announced name.
///
/// The path-control characters `< > : " / \ | ? *` are taken out, the
/// separators among them. If that leaves the empty name or dots alone, the
/// name is `unknown_file`. The result never leads out of the directory it
/// is joined to.
pub fn plain_name(name: &str) -> (plain: String)
    ensures
        plain@ == plain_name_spec(name@),
        is_plain_name(plain@),
{
    let ghost keep = |c: char| !is_path_control_char(c);
    let mut plain = String::new();
    let mut dots_only = true;
    assert(name@.take(0) =~= Seq::<char>::empty());
    assert(name@.take(0).filter(keep) =~= Seq::<char>::empty()) by {
        reveal(Seq::filter);
    }
    for c in it: name.chars()
        invariant
            keep == (|c: char| !is_path_control_char(c)),
            it.seq() == name@,
            plain@ == name@.take(it.index() as int).filter(keep),
            dots_only == only_dots(plain@),
    {
        proof {
            assert(name@.take(it.index() + 1) =~= name@.take(it.index() as int).push(c));
            name@.take(it.index() as int).lemma_filter_push(c, keep);
        }
        if !is_path_control(c) {
            let ghost before = plain@;
            plain.push(c);
            proof {
                if only_dots(before) && c == '.' {
                    assert(only_dots(plain@));
                } else if c != '.' {
                    assert(plain@[before.len() as int] != '.');
                } else {
                    let i = choose|i: int| 0 <= i < before.len() && before[i] != '.';
                    assert(plain@[i] != '.');
                }
            }
            dots_only = dots_only && c == '.';
        }
    }
    proof {
        assert(name@.take(name@.len() as int) =~= name@);
        lemma_plain_name_is_plain(name@);
    }
    if dots_only {
        String::from_str("unknown_file")
    } else {
        plain
    }
}

} // verus!
