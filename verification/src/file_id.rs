//! The identifier of a data file, read off its name.
//!
//! A data file is named
//! `part-<5 digits>-<36 characters>-<4 characters>.<extension>.parquet`; the
//! 36 characters are the file's id. Only the last segment of a path is
//! looked at, it must have that shape as a whole, and a name of another
//! shape has no id.

use vstd::prelude::*;
use vstd::string::*;
use crate::text::optional_text;

verus! {

/// The kinds of character that a data file's name is made of.
#[derive(Clone, Copy, Debug, PartialEq, Eq, Structural)]
pub enum CharClass {
    /// A decimal digit, `0` to `9`.
    Digit,
    /// A character of an id: a digit, a small letter `a` to `z`, or `-`.
    Id,
    /// A digit or a small letter `a` to `z`.
    Code,
    /// A character of an extension: a digit, a letter of either case, or
    /// `_`.
    Word,
}

/// Whether `c` is a decimal digit.
pub open spec fn is_digit(c: char) -> bool {
    '0' <= c <= '9'
}

/// Whether `c` is a small letter.
pub open spec fn is_small(c: char) -> bool {
    'a' <= c <= 'z'
}

/// Whether `c` is a capital letter.
pub open spec fn is_capital(c: char) -> bool {
    'A' <= c <= 'Z'
}

/// Whether `c` belongs to the class.
pub open spec fn in_class(class: CharClass, c: char) -> bool {
    match class {
        CharClass::Digit => is_digit(c),
        CharClass::Id => is_digit(c) || is_small(c) || c == '-',
        CharClass::Code => is_digit(c) || is_small(c),
        CharClass::Word => is_digit(c) || is_small(c) || is_capital(c) || c == '_',
    }
}

/// Whether every character of `name` from `from` up to `to` belongs to the
/// class.
pub open spec fn all_in_class(name: Seq<char>, from: int, to: int, class: CharClass) -> bool {
    forall|i: int| from <= i < to ==> in_class(class, #[trigger] name[i])
}

/// Where the id begins in the name of a data file.
pub const ID_START: usize = 11;

/// Where the id ends in the name of a data file.
pub const ID_END: usize = 47;

/// Whether `name`, as a whole, is the name of a data file: `part-`, five
/// digits, `-`, the 36 characters of the id, `-`, four digits or small
/// letters, `.`, an extension of at least one character, and `.parquet`.
pub open spec fn is_data_file_name(name: Seq<char>) -> bool {
    &&& name.len() >= 62
    &&& name.subrange(0, 5) == "part-"@
    &&& all_in_class(name, 5, 10, CharClass::Digit)
    &&& name[10] == '-'
    &&& all_in_class(name, ID_START as int, ID_END as int, CharClass::Id)
    &&& name[47] == '-'
    &&& all_in_class(name, 48, 52, CharClass::Code)
    &&& name[52] == '.'
    &&& all_in_class(name, 53, name.len() - 8, CharClass::Word)
    &&& name.subrange(name.len() - 8, name.len() as int) == ".parquet"@
}

/// The part of a path after its last `/`; the whole path if it has none.
pub open spec fn last_segment(path: Seq<char>) -> Seq<char>
    decreases path.len(),
{
    if path.len() == 0 {
        path
    } else if path.last() == '/' {
        Seq::empty()
    } else {
        last_segment(path.drop_last()).push(path.last())
    }
}

/// The id of the file at `path`: the characters 11 to 46 of the last
/// segment, if that segment is the name of a data file.
pub open spec fn file_id(path: Seq<char>) -> Option<Seq<char>> {
    let name = last_segment(path);
    if is_data_file_name(name) {
        Some(name.subrange(ID_START as int, ID_END as int))
    } else {
        None
    }
}

/// A text without `/` is its own last segment.
pub proof fn lemma_segment_of_name(name: Seq<char>)
    requires
        forall|i: int| 0 <= i < name.len() ==> name[i] != '/',
    ensures
        last_segment(name) == name,
    decreases name.len(),
{
    if name.len() > 0 {
        lemma_segment_of_name(name.drop_last());
        assert(name.drop_last().push(name.last()) =~= name);
    }
}

/// The last segment of a directory, a `/` and a name without `/` is the
/// name.
pub proof fn lemma_segment_after_slash(dir: Seq<char>, name: Seq<char>)
    requires
        forall|i: int| 0 <= i < name.len() ==> name[i] != '/',
    ensures
        last_segment(dir + seq!['/'] + name) == name,
    decreases name.len(),
{
    let path = dir + seq!['/'] + name;
    if name.len() == 0 {
        assert(path.last() == '/');
        assert(name =~= Seq::<char>::empty());
    } else {
        lemma_segment_after_slash(dir, name.drop_last());
        assert(path.drop_last() =~= dir + seq!['/'] + name.drop_last());
        assert(path.last() == name.last());
        assert(name.drop_last().push(name.last()) =~= name);
    }
}

/// Cuts the last segment off a path.
pub fn file_name(path: &str) -> (name: &str)
    ensures
        name@ == last_segment(path@),
{
    let len = path.unicode_len();
    let mut start: usize = 0;
    let mut i: usize = 0;
    while i < len
        invariant
            len == path@.len(),
            start <= i <= len,
            last_segment(path@.take(i as int)) == path@.subrange(start as int, i as int),
        decreases len - i,
    {
        let c = path.get_char(i);
        proof {
            let next = path@.take(i + 1);
            assert(next.drop_last() =~= path@.take(i as int));
            assert(next.last() == c);
            if c != '/' {
                assert(path@.subrange(start as int, i as int).push(c) =~= path@.subrange(
                    start as int,
                    i + 1,
                ));
            } else {
                assert(path@.subrange(i + 1, i + 1) =~= Seq::<char>::empty());
            }
        }
        if c == '/' {
            start = i + 1;
        }
        i = i + 1;
    }
    assert(path@.take(len as int) =~= path@);
    path.substring_char(start, len)
}

/// Decides whether a character belongs to a class.
pub fn belongs(class: CharClass, c: char) -> (inside: bool)
    ensures
        inside == in_class(class, c),
{
    let digit = '0' <= c && c <= '9';
    let small = 'a' <= c && c <= 'z';
    let capital = 'A' <= c && c <= 'Z';
    match class {
        CharClass::Digit => digit,
        CharClass::Id => digit || small || c == '-',
        CharClass::Code => digit || small,
        CharClass::Word => digit || small || capital || c == '_',
    }
}

/// Decides whether the characters of `name` from `from` up to `to` all
/// belong to the class.
pub fn run_of(name: &str, from: usize, to: usize, class: CharClass) -> (all: bool)
    requires
        from <= to <= name@.len(),
    ensures
        all == all_in_class(name@, from as int, to as int, class),
{
    let mut i: usize = from;
    while i < to
        invariant
            from <= i <= to <= name@.len(),
            all_in_class(name@, from as int, i as int, class),
        decreases to - i,
    {
        if !belongs(class, name.get_char(i)) {
            return false;
        }
        i = i + 1;
    }
    true
}

/// Decides whether `name` holds the text `part` at the place `at`.
pub fn holds_at(name: &str, at: usize, part: &str) -> (held: bool)
    requires
        at + part@.len() <= name@.len(),
    ensures
        held == (name@.subrange(at as int, at + part@.len()) == part@),
{
    let len = part.unicode_len();
    let whole = name.unicode_len();
    let mut i: usize = 0;
    while i < len
        invariant
            len == part@.len(),
            whole == name@.len(),
            i <= len,
            at + len <= name@.len(),
            name@.subrange(at as int, at + i) == part@.take(i as int),
        decreases len - i,
    {
        if name.get_char(at + i) != part.get_char(i) {
            assert(name@.subrange(at as int, at + len)[i as int] != part@[i as int]);
            return false;
        }
        assert(name@.subrange(at as int, at + i + 1) =~= name@.subrange(at as int, at + i).push(
            name@[at + i],
        ));
        assert(part@.take(i + 1) =~= part@.take(i as int).push(part@[i as int]));
        i = i + 1;
    }
    assert(part@.take(len as int) =~= part@);
    true
}

/// Decides whether `name`, as a whole, is the name of a data file.
pub fn names_data_file(name: &str) -> (named: bool)
    ensures
        named == is_data_file_name(name@),
{
    proof {
        reveal_strlit("part-");
        reveal_strlit(".parquet");
    }
    let len = name.unicode_len();
    if len < 62 {
        return false;
    }
    holds_at(name, 0, "part-") && run_of(name, 5, 10, CharClass::Digit) && name.get_char(10)
        == '-' && run_of(name, ID_START, ID_END, CharClass::Id) && name.get_char(47) == '-'
        && run_of(name, 48, 52, CharClass::Code) && name.get_char(52) == '.' && run_of(
        name,
        53,
        len - 8,
        CharClass::Word,
    ) && holds_at(name, len - 8, ".parquet")
}

/// The id of the file at `file`: the 36 characters after the part number in
/// the last segment of the path, or `None` if that segment as a whole does
/// not have the shape of a data file's name.
pub fn id_from_file(file: &str) -> (id: Option<String>)
    ensures
        optional_text(id) == file_id(file@),
{
    let name = file_name(file);
    if names_data_file(name) {
        Some(name.substring_char(ID_START, ID_END).to_owned())
    } else {
        None
    }
}

} // verus!
