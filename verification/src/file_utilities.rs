//! Path-text helpers: the file-name component of a path and the extension of
//! a file name, both specified over [`split_on_char`].

use vstd::prelude::*;
use crate::strings::{split_on_char, split_string, views_of_strings};

verus! {

/// The component after the last path separator, `/` and `\` alike.
pub open spec fn path_file_name(p: Seq<char>) -> Seq<char> {
    split_on_char(split_on_char(p, '/').last(), '\\').last()
}

/// The text after the last `.` of a file name; empty when the name has no
/// dot.
pub open spec fn file_extension(name: Seq<char>) -> Seq<char> {
    let parts = split_on_char(name, '.');
    if parts.len() >= 2 {
        parts.last()
    } else {
        Seq::<char>::empty()
    }
}

/// The last segment of a string split on a separator.
fn last_segment(s: &str, sep: char) -> (r: String)
    ensures
        r@ == split_on_char(s@, sep).last(),
{
    let parts = split_string(s, sep);
    let r = parts[parts.len() - 1].clone();
    proof {
        assert(views_of_strings(parts@).last() == parts@.last()@);
    }
    r
}

/// The file-name component of a path.
pub fn file_name_of_path(p: &str) -> (r: String)
    ensures
        r@ == path_file_name(p@),
{
    let slash_last = last_segment(p, '/');
    last_segment(slash_last.as_str(), '\\')
}

/// The extension of a file name; empty when there is none.
pub fn extension_of_file_name(name: &str) -> (r: String)
    ensures
        r@ == file_extension(name@),
{
    let parts = split_string(name, '.');
    if parts.len() >= 2 {
        let r = parts[parts.len() - 1].clone();
        proof {
            assert(views_of_strings(parts@).last() == parts@.last()@);
        }
        r
    } else {
        String::new()
    }
}

/// The extension of the file a path points at; empty when there is none.
pub fn _get_file_type(file_path: &str) -> (r: String)
    ensures
        r@ == file_extension(path_file_name(file_path@)),
{
    let name = file_name_of_path(file_path);
    extension_of_file_name(name.as_str())
}

/// The subtype half of a `type/subtype` mime text.
pub fn get_file_type_from_mime(mime: &str) -> (r: String)
    requires
        split_on_char(mime@, '/').len() >= 2,
    ensures
        r@ == split_on_char(mime@, '/')[1],
{
    let parts = split_string(mime, '/');
    let r = parts[1].clone();
    proof {
        assert(views_of_strings(parts@)[1] == parts@[1]@);
    }
    r
}

} // verus!
