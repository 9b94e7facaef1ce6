//! Where a corrected recording is stored, and under which name.
//!
//! The copy of `ride.fit` that was made under the identifier `abc123` is
//! called `ride_abc123.fit`, or `pre_ride_abc123.fit` with the prefix `pre`.
//! It goes to the directory that was asked for, else next to the recording.

use crate::paths::{file_name, file_name_of, parent, parent_of, path_within, within};
use crate::text::{chars_of, opt_text};
use vstd::prelude::*;

verus! {

/// The extension of a recording, with its dot.
pub open spec fn fit_ext() -> Seq<char> {
    seq!['.', 'f', 'i', 't']
}

/// Where the last dot of `name[..to]` stands; -1 where it holds none.
pub open spec fn last_dot(name: Seq<char>, to: int) -> int
    decreases to,
{
    if to <= 0 {
        -1
    } else if name[to - 1] == '.' {
        to - 1
    } else {
        last_dot(name, to - 1)
    }
}

/// The name of a file without its last extension: the name up to its last
/// dot. A name without a dot, or with none but a leading one, is its own stem.
pub open spec fn stem(file_name: Seq<char>) -> Seq<char> {
    let dot = last_dot(file_name, file_name.len() as int);
    if dot <= 0 {
        file_name
    } else {
        file_name.take(dot)
    }
}

/// What a prefix puts in front of the name: the prefix and an underscore, or
/// nothing where no prefix was given.
pub open spec fn prefix_part(prefix: Option<Seq<char>>) -> Seq<char> {
    match prefix {
        Some(p) => p.push('_'),
        None => Seq::empty(),
    }
}

/// The name of the corrected copy of the recording `file_name`.
pub open spec fn output_name(prefix: Option<Seq<char>>, file_name: Seq<char>, id: Seq<char>) -> Seq<
    char,
> {
    prefix_part(prefix) + stem(file_name) + seq!['_'] + id + fit_ext()
}

/// The path of the corrected copy of the recording `file_name` in `dir`.
pub open spec fn output_path(
    dir: Seq<char>,
    prefix: Option<Seq<char>>,
    file_name: Seq<char>,
    id: Seq<char>,
) -> Seq<char> {
    within(dir, output_name(prefix, file_name, id))
}

/// The directory for the copies of `input_file`: the one that was asked for,
/// as it was written, else the parent of `input_file`.
pub open spec fn output_dir(asked: Option<Seq<char>>, input_file: Seq<char>) -> Option<Seq<char>> {
    match asked {
        Some(dir) => Some(dir),
        None => parent_of(input_file),
    }
}

/// The path of the corrected copy of the recording at `input_file`, which
/// must end in a file name.
pub open spec fn planned_output(
    asked: Option<Seq<char>>,
    prefix: Option<Seq<char>>,
    input_file: Seq<char>,
    id: Seq<char>,
) -> Option<Seq<char>> {
    match (output_dir(asked, input_file), file_name_of(input_file)) {
        (Some(dir), Some(name)) => Some(output_path(dir, prefix, name, id)),
        _ => None,
    }
}

/// Whether `c` is a digit of a number in base sixteen, in lower case.
pub open spec fn is_lower_hex(c: char) -> bool {
    ('0' <= c && c <= '9') || ('a' <= c && c <= 'f')
}

/// The shape of a freshly drawn identifier: thirty-two digits in base sixteen
/// in groups of 8, 4, 4, 4 and 12 with hyphens between them, where the third
/// group starts with `4` and the fourth with one of `8`, `9`, `a`, `b`.
pub open spec fn is_random_id(id: Seq<char>) -> bool {
    &&& id.len() == 36
    &&& forall|i: int|
        0 <= i < 36 ==> if i == 8 || i == 13 || i == 18 || i == 23 {
            #[trigger] id[i] == '-'
        } else {
            is_lower_hex(id[i])
        }
    &&& id[14] == '4'
    &&& (id[19] == '8' || id[19] == '9' || id[19] == 'a' || id[19] == 'b')
}

/// The name of a file without its last extension.
pub fn stem_of(file_name: &str) -> (r: String)
    ensures
        r@ == stem(file_name@),
{
    let v = chars_of(file_name);
    let mut at = v.len();
    while at > 0 && v[at - 1] != '.'
        invariant
            at <= v.len(),
            last_dot(v@, v@.len() as int) == last_dot(v@, at as int),
        decreases at,
    {
        at -= 1;
    }
    if at <= 1 {
        String::from_str(file_name)
    } else {
        assert(file_name@.subrange(0, at - 1) =~= file_name@.take(at - 1));
        String::from_str(file_name.substring_char(0, at - 1))
    }
}

/// The path of the corrected copy of `file_name` in `dir`.
pub fn get_output_file_path(dir: String, prefix: Option<String>, file_name: String, id: String) -> (path:
    String)
    ensures
        path@ == output_path(dir@, opt_text(prefix), file_name@, id@),
{
    proof {
        reveal_strlit("_");
        reveal_strlit(".fit");
    }
    assert("_"@ =~= seq!['_']);
    assert(".fit"@ =~= fit_ext());
    let mut name = match prefix {
        Some(p) => {
            let mut with_prefix = p;
            with_prefix.append("_");
            with_prefix
        },
        None => String::new(),
    };
    assert(name@ =~= prefix_part(opt_text(prefix)));
    let stem = stem_of(file_name.as_str());
    name.append(stem.as_str());
    name.append("_");
    name.append(id.as_str());
    name.append(".fit");
    path_within(dir.as_str(), name.as_str())
}

/// The directory for the copies of `input_file`. Where none is asked for,
/// `input_file` must have a parent.
pub fn get_output_dir(asked: Option<String>, input_file: String) -> (dir: String)
    requires
        asked is None ==> parent_of(input_file@) is Some,
    ensures
        Some(dir@) == output_dir(opt_text(asked), input_file@),
        asked matches Some(given) ==> dir@ == given@,
        asked is None ==> Some(dir@) == parent_of(input_file@),
{
    match asked {
        Some(dir) => dir,
        None => {
            match parent(input_file.as_str()) {
                Some(dir) => dir,
                None => String::new(),
            }
        },
    }
}

/// The path of the corrected copy of the recording at `input_file` that was
/// made under `id`; `None` where `input_file` does not end in a file name.
pub fn output_path_for(
    asked: Option<String>,
    prefix: Option<String>,
    input_file: &str,
    id: &str,
) -> (path: Option<String>)
    ensures
        opt_text(path) == planned_output(opt_text(asked), opt_text(prefix), input_file@, id@),
        path is Some <==> file_name_of(input_file@) is Some,
{
    match file_name(input_file) {
        Some(name) => {
            let dir = get_output_dir(asked, String::from_str(input_file));
            Some(get_output_file_path(dir, prefix, name, String::from_str(id)))
        },
        None => None,
    }
}

/// Draws a fresh identifier: `uuid::Uuid::new_v4()`, written out by its
/// `Display`, which is the hyphenated form in lower case. Nothing is known of
/// the digits but what the version and the variant fix: the contract states
/// the shape, which every outcome has. The draw asks the operating system
/// for random bytes and gives up where it has none.
#[verifier::external_body]
fn random_id() -> (id: String)
    ensures
        is_random_id(id@),
{
    uuid::Uuid::new_v4().to_string()
}

/// The path of the corrected copy of the recording at `input_file`, made
/// under a fresh identifier; `None` where `input_file` does not end in a
/// file name.
pub fn fresh_output_path(asked: Option<String>, prefix: Option<String>, input_file: &str) -> (path:
    Option<String>)
    ensures
        path is Some <==> file_name_of(input_file@) is Some,
        path matches Some(p) ==> exists|id: Seq<char>|
            #[trigger] is_random_id(id) && Some(p@) == planned_output(
                opt_text(asked),
                opt_text(prefix),
                input_file@,
                id,
            ),
{
    let id = random_id();
    output_path_for(asked, prefix, input_file, id.as_str())
}

/// The stem of a name is the start of the name. What the name has more than
/// its stem is one extension: a dot, and behind it no other dot.
pub proof fn lemma_stem_is_prefix(file_name: Seq<char>)
    ensures
        stem(file_name).len() <= file_name.len(),
        stem(file_name) == file_name.take(stem(file_name).len() as int),
        stem(file_name).len() < file_name.len() ==> file_name[stem(file_name).len() as int] == '.',
        forall|i: int|
            stem(file_name).len() < i < file_name.len() && stem(file_name).len() < file_name.len()
                ==> file_name[i] != '.',
{
    lemma_last_dot(file_name, file_name.len() as int);
    assert(file_name.take(file_name.len() as int) =~= file_name);
    let dot = last_dot(file_name, file_name.len() as int);
    if dot > 0 {
        assert(file_name.take(dot).take(dot) =~= file_name.take(dot));
    }
}

/// Where `last_dot` points there is a dot, and none stands behind it.
pub proof fn lemma_last_dot(name: Seq<char>, to: int)
    requires
        to <= name.len(),
    ensures
        -1 <= last_dot(name, to),
        to > 0 ==> last_dot(name, to) < to,
        last_dot(name, to) >= 0 ==> name[last_dot(name, to)] == '.',
        forall|i: int| last_dot(name, to) < i < to && 0 <= i ==> name[i] != '.',
    decreases to,
{
    if to > 0 && name[to - 1] != '.' {
        lemma_last_dot(name, to - 1);
    }
}

/// Every output path lies in its directory and ends in the name of the copy:
/// it is the directory, at most one separator, and the name, whatever the
/// name starts with.
pub proof fn lemma_output_path_lies_in_dir(
    dir: Seq<char>,
    prefix: Option<Seq<char>>,
    file_name: Seq<char>,
    id: Seq<char>,
)
    ensures
        ({
            let path = output_path(dir, prefix, file_name, id);
            let name = output_name(prefix, file_name, id);
            &&& path.len() >= dir.len() + name.len()
            &&& path.take(dir.len() as int) == dir
            &&& path.skip(path.len() - name.len()) == name
            &&& path == dir + name || path == dir + seq!['/'] + name
        }),
{
    let path = output_path(dir, prefix, file_name, id);
    let name = output_name(prefix, file_name, id);
    assert(path.take(dir.len() as int) =~= dir);
    assert(path.skip(path.len() - name.len()) =~= name);
}

/// With a directory that is not empty and does not end in a separator, the
/// output path is the directory, a separator, the prefix with its underscore
/// if there is one, the stem, an underscore, the identifier and the
/// extension. Without a prefix no underscore stands before the stem.
pub proof fn lemma_output_path_plain(
    dir: Seq<char>,
    prefix: Option<Seq<char>>,
    file_name: Seq<char>,
    id: Seq<char>,
)
    requires
        dir.len() > 0,
        dir.last() != '/',
    ensures
        prefix matches Some(p) ==> output_path(dir, prefix, file_name, id) == dir + seq!['/'] + p
            + seq!['_'] + stem(file_name) + seq!['_'] + id + fit_ext(),
        prefix is None ==> output_path(dir, prefix, file_name, id) == dir + seq!['/'] + stem(
            file_name,
        ) + seq!['_'] + id + fit_ext(),
{
    let name = output_name(prefix, file_name, id);
    match prefix {
        Some(p) => {
            assert(dir + seq!['/'] + name =~= dir + seq!['/'] + p + seq!['_'] + stem(file_name)
                + seq!['_'] + id + fit_ext());
        },
        None => {
            assert(dir + seq!['/'] + name =~= dir + seq!['/'] + stem(file_name) + seq!['_'] + id
                + fit_ext());
        },
    }
}

/// Copies of one recording that were made under different identifiers have
/// different paths.
pub proof fn lemma_identifiers_tell_outputs_apart(
    dir: Seq<char>,
    prefix: Option<Seq<char>>,
    file_name: Seq<char>,
    first: Seq<char>,
    second: Seq<char>,
)
    requires
        first != second,
    ensures
        output_path(dir, prefix, file_name, first) != output_path(dir, prefix, file_name, second),
{
    let head = if dir.len() > 0 && dir.last() != '/' {
        dir + seq!['/'] + prefix_part(prefix) + stem(file_name) + seq!['_']
    } else {
        dir + prefix_part(prefix) + stem(file_name) + seq!['_']
    };
    let a = output_path(dir, prefix, file_name, first);
    let b = output_path(dir, prefix, file_name, second);
    assert(a =~= head + first + fit_ext());
    assert(b =~= head + second + fit_ext());
    if a == b {
        assert(a.len() == b.len());
        assert(first.len() == second.len());
        assert forall|i: int| 0 <= i < first.len() implies first[i] == second[i] by {
            assert(a[head.len() + i] == first[i]);
            assert(b[head.len() + i] == second[i]);
        }
        assert(first =~= second);
    }
}

} // verus!
